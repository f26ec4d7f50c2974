use ghostbrew::cgroup::classify_cgroup_path;
use ghostbrew::cgroup::CgroupInfo;
use ghostbrew::cgroup::CgroupMonitor;
use ghostbrew::container::classify_container_workload;
use ghostbrew::container::extract_container_id;
use ghostbrew::container::is_container_cgroup;
use ghostbrew::container::ContainerProc;
use ghostbrew::container::ContainerWorkloadType;
use ghostbrew::control::apply_commands;
use ghostbrew::control::parse_commands;
use ghostbrew::events::handle_event;
use ghostbrew::events::EventCounters;
use ghostbrew::events::SchedEvent;
use ghostbrew::gaming::classify_process;
use ghostbrew::gaming::GamingDetector;
use ghostbrew::gpu::read_bar1_size;
use ghostbrew::gpu::read_gpu_power_state;
use ghostbrew::gpu::GpuPowerState;
use ghostbrew::intel::detect_intel_hybrid;
use ghostbrew::maps::ClassMap;
use ghostbrew::pbo::detect_prefcore;
use ghostbrew::pbo::EppManager;
use ghostbrew::profile_text::parse_profile;
use ghostbrew::profile_text::serialize_profile;
use ghostbrew::profiles::apply_profile_tunables;
use ghostbrew::profiles::ActiveProfileBindings;
use ghostbrew::profiles::GameProfile;
use ghostbrew::profiles::ProfileManager;
use ghostbrew::profiles::ProfileTunables;
use ghostbrew::profiles::SmtPreference;
use ghostbrew::profiles::VCachePreference;
use ghostbrew::stats::avg;
use ghostbrew::stats::csv_header;
use ghostbrew::stats::csv_row_string;
use ghostbrew::stats::isqrt;
use ghostbrew::stats::jitter;
use ghostbrew::stats::late_pct;
use ghostbrew::stats::SchedulerStats;
use ghostbrew::syncer::init_cpu_contexts;
use ghostbrew::syncer::sync_pid_diff;
use ghostbrew::textnum::parse_hex_u64;
use ghostbrew::textnum::parse_u64;
use ghostbrew::textnum::u64_to_dec;
use ghostbrew::topology::detect_nr_cpus;
use ghostbrew::topology::detect_topology;
use ghostbrew::topology::parse_cpu_list;
use ghostbrew::topology::CpuTopoFiles;
use ghostbrew::topology::RawTopology;
use ghostbrew::tunables::RuntimeTunables;
use ghostbrew::tunables::TUNABLES_SIZE;
use ghostbrew::vcache::SwitchingStrategy;
use ghostbrew::vcache::VCacheController;
use ghostbrew::vcache::VCacheMode;
use ghostbrew::vm::classify_vm_workload;
use ghostbrew::vm::detect_vm_passthrough_gpus;
use ghostbrew::vm::extract_vm_name;
use ghostbrew::vm::is_vcpu_thread_name;
use ghostbrew::vm::mask_pinned;
use ghostbrew::workload::WORKLOAD_AI;
use ghostbrew::workload::WORKLOAD_BATCH;
use ghostbrew::workload::WORKLOAD_GAMING;

fn default_tunables() -> RuntimeTunables {
    RuntimeTunables {
        burst_threshold_ns: 2_000_000,
        slice_ns: 3_000_000,
        gaming_mode: true,
        work_mode: false,
    }
}

fn small_topology() -> ghostbrew::topology::CpuTopology {
    detect_topology(RawTopology {
        online: "0-7".to_string(),
        cpuinfo: "model name\t: AMD Ryzen 7 7800X3D 8-Core Processor\n".to_string(),
        cpus: (0..8)
            .map(|c| CpuTopoFiles {
                cluster_id: Some(0),
                core_id: Some(c),
                node: Some(0),
            })
            .collect(),
        sibling_lists: (0..8).map(|_| None).collect(),
    })
}

#[test]
fn cpu_context_map_covers_every_cpu() {
    // One record per CPU id after startup, each CPU exactly once.
    let topo = small_topology();
    assert_eq!(topo.nr_cpus, 8);
    let plan = init_cpu_contexts(&topo, &vec![], &vec![]);
    assert_eq!(plan.len(), 8);
    for (i, (cpu, value)) in plan.iter().enumerate() {
        assert_eq!(*cpu, i as u32);
        assert_eq!(value.len(), 20);
    }
}

#[test]
fn classification_map_tracks_seen_set() {
    // Each PID of the current scan has exactly one record with its class.
    let mut det = GamingDetector::new();
    let mut map = ClassMap::new();
    let scan = vec![(10u32, WORKLOAD_GAMING), (11u32, WORKLOAD_AI)];
    let (added, removed) = det.scan_changes(&scan);
    assert_eq!(added.len(), 2);
    assert!(removed.is_empty());
    let ops = sync_pid_diff(&mut map, &added, &removed);
    assert_eq!(ops.len(), 2);
    assert_eq!(map.lookup(10), Some(WORKLOAD_GAMING));
    assert_eq!(map.lookup(11), Some(WORKLOAD_AI));
    assert_eq!(map.len(), 2);

    let scan2 = vec![(11u32, WORKLOAD_AI)];
    let (added2, removed2) = det.scan_changes(&scan2);
    assert!(added2.is_empty());
    assert_eq!(removed2, vec![10]);
    sync_pid_diff(&mut map, &added2, &removed2);
    assert_eq!(map.lookup(10), None);
    assert_eq!(map.lookup(11), Some(WORKLOAD_AI));
    assert_eq!(map.len(), 1);
}

#[test]
fn stacked_cluster_lies_in_range() {
    // The stacked-cache cluster, when set, is a real cluster id.
    let topo = small_topology();
    if let Some(v) = topo.vcache_ccd {
        assert!(v < topo.nr_ccds);
    } else {
        panic!("stacked-cache part must report its cluster");
    }
}

#[test]
fn empty_bindings_restore_defaults() {
    // After the last profile binding goes, the tunables revert.
    let defaults = default_tunables();
    let mut t = defaults;
    let mut bindings = ActiveProfileBindings::new();
    bindings.bind(100, "racing".to_string());
    t.slice_ns = 1_500_000;
    bindings.unbind(999, &mut t, defaults);
    assert_eq!(t.slice_ns, 1_500_000);
    bindings.unbind(100, &mut t, defaults);
    assert_eq!(bindings.len(), 0);
    assert_eq!(t, defaults);
}

#[test]
fn one_switch_per_hysteresis_window() {
    // A candidate mode takes effect only after the whole window, and a
    // second switch needs a whole new window.
    let mut ctl = VCacheController::new(true, VCacheMode::Frequency, 0);
    ctl.set_strategy(SwitchingStrategy::Automatic {
        gaming_threshold: 1,
        batch_threshold: 1,
    });
    assert_eq!(ctl.evaluate_switch(0, 5, 0), None);
    assert_eq!(ctl.evaluate_switch(1_000_000_000, 5, 0), None);
    assert_eq!(ctl.evaluate_switch(6_000_000_000, 5, 0), Some(VCacheMode::Cache));
    assert!(ctl.request_mode(VCacheMode::Cache));
    assert_eq!(ctl.evaluate_switch(6_100_000_000, 0, 5), None);
    assert_eq!(ctl.evaluate_switch(10_000_000_000, 0, 5), None);
    assert_eq!(
        ctl.evaluate_switch(11_200_000_000, 0, 5),
        Some(VCacheMode::Frequency)
    );
}

#[test]
fn vcache_poll_rate_limit_and_external_change() {
    let mut ctl = VCacheController::new(true, VCacheMode::Cache, 0);
    assert!(!ctl.read_due(100));
    assert_eq!(ctl.poll_changes(100, VCacheMode::Frequency), None);
    assert_eq!(ctl.current_mode(), VCacheMode::Cache);
    assert!(ctl.read_due(600_000_000));
    assert_eq!(
        ctl.poll_changes(600_000_000, VCacheMode::Frequency),
        Some(VCacheMode::Frequency)
    );
    assert!(!ctl.current_mode().to_gaming_mode());
}

#[test]
fn epp_restore_carries_startup_values() {
    // On shutdown each CPU goes back to the value observed at startup.
    let mut epp = EppManager::new(2);
    epp.save_original(&vec![Some("balance_performance".to_string()), Some("power".to_string())]);
    assert!(epp.set_epp(0, "performance"));
    assert!(!epp.set_epp(0, "performance"));
    let writes = epp.restore_original();
    assert_eq!(writes.len(), 2);
    assert_eq!(writes[0], (0, "balance_performance".to_string()));
    assert_eq!(writes[1], (1, "power".to_string()));
}

#[test]
fn event_record_roundtrip_bit_for_bit() {
    let e = SchedEvent {
        timestamp_ns: 0x1122_3344_5566_7788,
        event_type: 3,
        pid: 4242,
        cpu: 7,
        ccd: 1,
        value1: u64::MAX,
        value2: 0,
        comm: *b"proton-run\0\0\0\0\0\0",
    };
    let bytes = e.encode();
    assert_eq!(bytes.len(), 64);
    let d = SchedEvent::decode(&bytes).unwrap();
    assert_eq!(d.timestamp_ns, e.timestamp_ns);
    assert_eq!(d.event_type, e.event_type);
    assert_eq!(d.pid, e.pid);
    assert_eq!(d.cpu, e.cpu);
    assert_eq!(d.ccd, e.ccd);
    assert_eq!(d.value1, e.value1);
    assert_eq!(d.value2, e.value2);
    assert_eq!(d.comm, e.comm);
}

#[test]
fn truncated_event_record_is_dropped() {
    let mut counters = EventCounters::new();
    let short = vec![0u8; 63];
    assert!(handle_event(&mut counters, &short).is_none());
    assert_eq!(counters.dropped, 1);
    let e = SchedEvent {
        timestamp_ns: 1,
        event_type: 1,
        pid: 1,
        cpu: 0,
        ccd: 0,
        value1: 0,
        value2: 0,
        comm: [0; 16],
    };
    assert!(handle_event(&mut counters, &e.encode()).is_some());
    assert_eq!(counters.gaming_detected, 1);
}

#[test]
fn tunables_roundtrip_unchanged() {
    // Writing, reading back and writing the read value is the identity.
    let t = RuntimeTunables {
        burst_threshold_ns: 1_500_000,
        slice_ns: 3_000_000,
        gaming_mode: true,
        work_mode: false,
    };
    let wire = t.encode();
    assert_eq!(wire.len(), TUNABLES_SIZE);
    let back = RuntimeTunables::decode(&wire).unwrap();
    assert_eq!(back, t);
    assert_eq!(back.encode(), wire);
    assert!(RuntimeTunables::decode(&vec![0u8; 23]).is_none());
}

#[test]
fn profile_text_roundtrip() {
    // Parsing a serialized profile reproduces it, field for field.
    let p = GameProfile {
        name: "Night City".to_string(),
        exe_name: Some("Cyberpunk2077.exe".to_string()),
        steam_appid: Some(1091500),
        comm_pattern: None,
        tunables: ProfileTunables {
            burst_threshold_ns: Some(1_500_000),
            slice_ns: None,
        },
        vcache_preference: VCachePreference::Cache,
        smt_preference: SmtPreference::Auto,
    };
    let text = String::from_utf8(serialize_profile(&p)).unwrap();
    let back = parse_profile(&text).unwrap();
    assert_eq!(back.name, p.name);
    assert_eq!(back.exe_name, p.exe_name);
    assert_eq!(back.steam_appid, p.steam_appid);
    assert_eq!(back.comm_pattern, p.comm_pattern);
    assert_eq!(back.tunables, p.tunables);
    assert_eq!(back.vcache_preference, p.vcache_preference);
    assert_eq!(back.smt_preference, p.smt_preference);
}

#[test]
fn profile_without_name_is_rejected() {
    assert!(parse_profile("exe_name = \"a.exe\"\n").is_none());
    assert!(parse_profile("name = unquoted\n").is_none());
    assert!(parse_profile("no equals sign").is_none());
}

#[test]
fn single_cluster_stacked_part_flags_every_cpu() {
    // A stacked-cache single-cluster model: one cluster, flag on all CPUs.
    let topo = small_topology();
    assert_eq!(topo.nr_ccds, 1);
    assert!(topo.is_x3d);
    assert_eq!(topo.vcache_ccd, Some(0));
    let plan = init_cpu_contexts(&topo, &vec![], &vec![]);
    for (_, value) in &plan {
        // The stacked-cache flag byte follows the four 32-bit fields.
        assert_eq!(value[16], 1);
    }
}

#[test]
fn hybrid_with_zero_ecores_is_consistent() {
    // A hybrid fixture where every CPU reports full capacity still
    // yields a consistent partition.
    let caps: Vec<Option<u32>> = (0..4).map(|_| Some(1024)).collect();
    let info = detect_intel_hybrid(4, "Intel Core i9-14900K", &caps);
    assert!(info.is_hybrid);
    assert_eq!(info.generation, 14);
    assert_eq!(info.pcore_cpus, vec![0, 1, 2, 3]);
    assert!(info.ecore_cpus.is_empty());
    assert_eq!(info.turbo_rankings.len(), 4);
}

#[test]
fn hybrid_partition_is_disjoint_and_complete() {
    let caps = vec![Some(1024), Some(768), None, Some(900)];
    let info = detect_intel_hybrid(4, "Intel Core i5-12600K", &caps);
    assert_eq!(info.pcore_cpus, vec![0, 2, 3]);
    assert_eq!(info.ecore_cpus, vec![1]);
    for c in 0..4u32 {
        let p = info.pcore_cpus.contains(&c);
        let e = info.ecore_cpus.contains(&c);
        assert!(p ^ e);
    }
}

#[test]
fn cgroup_boundary_paths() {
    assert_eq!(classify_cgroup_path("system.slice/foo"), WORKLOAD_BATCH);
    assert_eq!(
        classify_cgroup_path("user.slice/app.slice/steam-1234.scope"),
        WORKLOAD_GAMING
    );
    assert_eq!(classify_cgroup_path("user.slice/user-1000.slice"), 0);
}

#[test]
fn gaming_cgroup_scan_maps_id_to_class() {
    // A proton scope under the user slice classifies as gaming.
    let scan = vec![CgroupInfo {
        path: "user.slice/gaming.slice/proton.scope".to_string(),
        id: 4242,
        workload_class: classify_cgroup_path("user.slice/gaming.slice/proton.scope"),
    }];
    let mut monitor = CgroupMonitor::new(&Vec::new());
    let (added, removed) = monitor.rescan(&scan);
    assert_eq!(added.len(), 1);
    assert!(removed.is_empty());
    assert_eq!(added[0].id, 4242);
    assert_eq!(added[0].workload_class, WORKLOAD_GAMING);
    let classes = monitor.get_classifications();
    assert_eq!(classes, vec![(4242, WORKLOAD_GAMING)]);
}

#[test]
fn wine_process_classifies_as_gaming() {
    assert_eq!(
        classify_process(Some("/usr/bin/wine"), None),
        Some(WORKLOAD_GAMING)
    );
    assert_eq!(
        classify_process(Some("/opt/game/Game.exe"), None),
        Some(WORKLOAD_GAMING)
    );
    assert_eq!(
        classify_process(Some("/usr/bin/ollama"), None),
        Some(WORKLOAD_AI)
    );
    // A bare interpreter match needs the environment to confirm it.
    assert_eq!(classify_process(Some("/usr/bin/python3"), None), None);
    assert_eq!(
        classify_process(Some("/usr/bin/python3"), Some("CUDA_VISIBLE_DEVICES=0")),
        Some(WORKLOAD_AI)
    );
    assert_eq!(classify_process(Some("/usr/bin/bash"), None), None);
}

#[test]
fn profile_match_applies_and_reverts() {
    // A matched profile's overrides apply; emptying the bindings reverts.
    let mut pm = ProfileManager::new();
    pm.add_profile(GameProfile {
        name: "cp".to_string(),
        exe_name: Some("cyberpunk2077.exe".to_string()),
        steam_appid: None,
        comm_pattern: None,
        tunables: ProfileTunables {
            burst_threshold_ns: None,
            slice_ns: Some(1_500_000),
        },
        vcache_preference: VCachePreference::Auto,
        smt_preference: SmtPreference::Auto,
    });
    assert_eq!(pm.count(), 1);
    let defaults = default_tunables();
    let mut t = defaults;
    let hit = pm.match_process("Cyberpunk2077.exe", None).expect("profile must match");
    assert_eq!(hit.name, "cp");
    apply_profile_tunables(&mut t, hit);
    assert_eq!(t.slice_ns, 1_500_000);
    assert_eq!(t.burst_threshold_ns, defaults.burst_threshold_ns);
    let mut bindings = ActiveProfileBindings::new();
    bindings.bind(777, "cp".to_string());
    bindings.unbind(777, &mut t, defaults);
    assert_eq!(t, defaults);
    assert!(pm.match_process("vim", None).is_none());
}

#[test]
fn duplicate_profile_name_replaces() {
    // A profile with an already-loaded name replaces it; the count stays.
    let mut pm = ProfileManager::new();
    pm.add_profile(GameProfile {
        name: "cp".to_string(),
        exe_name: Some("old.exe".to_string()),
        steam_appid: None,
        comm_pattern: None,
        tunables: ProfileTunables { burst_threshold_ns: None, slice_ns: None },
        vcache_preference: VCachePreference::Auto,
        smt_preference: SmtPreference::Auto,
    });
    pm.add_profile(GameProfile {
        name: "cp".to_string(),
        exe_name: Some("new.exe".to_string()),
        steam_appid: None,
        comm_pattern: None,
        tunables: ProfileTunables { burst_threshold_ns: None, slice_ns: None },
        vcache_preference: VCachePreference::Auto,
        smt_preference: SmtPreference::Auto,
    });
    assert_eq!(pm.count(), 1);
    assert_eq!(pm.all_profiles()[0].exe_name, Some("new.exe".to_string()));
    let hit = pm.match_process("new.exe", None).expect("replacement must match");
    assert_eq!(hit.name, "cp");
    assert!(pm.match_process("old.exe", None).is_none());
}

#[test]
fn control_lines_update_tunables_in_order() {
    // Two lines apply; unknown keys change nothing; the last write wins.
    let mut t = default_tunables();
    t.gaming_mode = false;
    let cmds = parse_commands(
        "burst_threshold_ns=1500000\ngaming_mode=true\n# comment\nmystery_key=9\nslice_ns=1\nslice_ns=2\n",
    );
    assert_eq!(cmds.len(), 4);
    apply_commands(&mut t, &cmds);
    assert_eq!(t.burst_threshold_ns, 1_500_000);
    assert!(t.gaming_mode);
    assert_eq!(t.slice_ns, 2);
}

#[test]
fn qemu_gaming_vm_with_passthrough() {
    let args: Vec<String> = vec![
        "qemu-system-x86_64",
        "-name",
        "guest=win10-gaming,debug-threads=on",
        "-device",
        "vfio-pci,host=0000:01:00.0",
    ]
    .into_iter()
    .map(|s| s.to_string())
    .collect();
    assert_eq!(extract_vm_name(&args), "win10-gaming");
    let gpus = detect_vm_passthrough_gpus(&args);
    assert_eq!(gpus, vec!["0000:01:00.0".to_string()]);
    assert_eq!(
        classify_vm_workload("win10-gaming", "", true),
        ghostbrew::vm::VmWorkloadType::Gaming
    );
    assert_eq!(
        classify_vm_workload("fedora-build", "", false),
        ghostbrew::vm::VmWorkloadType::Dev
    );
    assert!(is_vcpu_thread_name("CPU 0/KVM"));
    assert!(!is_vcpu_thread_name("worker"));
    assert!(mask_pinned("0000000c"));
    assert!(!mask_pinned("ffffffff"));
}

#[test]
fn passthrough_host_address_is_normalized() {
    let args: Vec<String> = vec!["-device", "vfio-pci,host=01:00.0"]
        .into_iter()
        .map(|s| s.to_string())
        .collect();
    assert_eq!(detect_vm_passthrough_gpus(&args), vec!["0000:01:00.0".to_string()]);
}

#[test]
fn container_names_and_classification() {
    assert!(is_container_cgroup("docker-0123456789abcdef.scope"));
    assert!(is_container_cgroup("libpod-aaaabbbbcccc.scope"));
    assert!(is_container_cgroup("0123456789ab"));
    assert!(!is_container_cgroup("system.slice"));
    assert_eq!(
        extract_container_id("docker-0123456789abcdef.scope"),
        "0123456789ab"
    );
    let procs = vec![ContainerProc {
        comm: Some("ollama".to_string()),
        environ: Some("NVIDIA_VISIBLE_DEVICES=all".to_string()),
    }];
    let (class, gpu) = classify_container_workload(&procs, None);
    assert_eq!(class, ContainerWorkloadType::Ai);
    assert!(gpu);
    let (class2, gpu2) = classify_container_workload(&Vec::new(), Some("c 195:* rwm"));
    assert_eq!(class2, ContainerWorkloadType::General);
    assert!(gpu2);
}

#[test]
fn gpu_power_and_bar_parsing() {
    assert_eq!(read_gpu_power_state(None, Some("D0\n")), GpuPowerState::D0);
    assert_eq!(
        read_gpu_power_state(None, Some("D3cold\n")),
        GpuPowerState::D3Cold
    );
    assert_eq!(
        read_gpu_power_state(Some("Runtime D3 status: Disabled\n"), Some("D3hot")),
        GpuPowerState::D0
    );
    assert_eq!(read_gpu_power_state(None, None), GpuPowerState::Unknown);
    // BAR1 is the second line of the resource file.
    let resource = "0x00000000a0000000 0x00000000a0ffffff 0x0000000000040200\n0x0000004000000000 0x00000043ffffffff 0x000000000014220c\n";
    assert_eq!(read_bar1_size(resource), 0x4_0000_0000);
}

#[test]
fn numeric_parsing_and_printing() {
    assert_eq!(parse_u64(b"1500000"), Some(1_500_000));
    assert_eq!(parse_u64(b"18446744073709551615"), Some(u64::MAX));
    assert_eq!(parse_u64(b"18446744073709551616"), None);
    assert_eq!(parse_u64(b""), None);
    assert_eq!(parse_u64(b"12a"), None);
    assert_eq!(parse_hex_u64(b"a0ffffff"), Some(0xa0ff_ffff));
    assert_eq!(parse_hex_u64(b"zz"), None);
    assert_eq!(u64_to_dec(0), b"0".to_vec());
    assert_eq!(u64_to_dec(90210), b"90210".to_vec());
}

#[test]
fn topology_text_parsing() {
    assert_eq!(detect_nr_cpus("0-31\n"), Some(32));
    assert_eq!(detect_nr_cpus("0,1,2"), Some(3));
    assert_eq!(parse_cpu_list("0-3,16-19"), vec![0, 1, 2, 3, 16, 17, 18, 19]);
    assert_eq!(parse_cpu_list("0,16"), vec![0, 16]);
}

#[test]
fn jitter_and_percent_formulas() {
    // jitter = isqrt(max(0, sum_sq/n - (sum/n)^2))
    assert_eq!(isqrt(0), 0);
    assert_eq!(isqrt(16), 4);
    assert_eq!(isqrt(24), 4);
    assert_eq!(isqrt(25), 5);
    // sum = 30 over 3 samples of 8, 10, 12: sum_sq = 64 + 100 + 144.
    assert_eq!(jitter(30, 308, 3), 1);
    assert_eq!(jitter(0, 0, 0), 0);
    assert_eq!(late_pct(1, 3), 33);
    assert_eq!(late_pct(0, 100), 0);
    assert_eq!(late_pct(5, 0), 0);
    assert_eq!(avg(10, 4), 2);
    assert_eq!(avg(10, 0), 0);
}

#[test]
fn csv_schema_is_fixed() {
    assert_eq!(
        csv_header(),
        "timestamp_ms,gaming_tasks,latency_avg_us,latency_max_us,jitter_us,late_pct,preemptions,cluster0_tasks,cluster1_tasks"
    );
    let row = csv_row_string(&SchedulerStats {
        timestamp_ms: 1,
        gaming_tasks: 2,
        latency_avg_us: 3,
        latency_max_us: 4,
        jitter_us: 5,
        late_pct: 6,
        preemptions: 7,
        cluster0_tasks: 8,
        cluster1_tasks: 9,
    });
    assert_eq!(row, "1,2,3,4,5,6,7,8,9\n");
}

#[test]
fn prefcore_rankings_and_preferred_cpus() {
    let rankings = vec![
        Some("166\n".to_string()),
        Some("231\n".to_string()),
        Some("231\n".to_string()),
        None,
    ];
    let info = detect_prefcore(4, Some("enabled\n"), &rankings);
    assert!(info.enabled);
    assert_eq!(info.rankings, vec![166, 231, 231, 0]);
    assert_eq!(info.max_ranking, 231);
    assert_eq!(info.preferred_cpus, vec![1, 2]);
    let off = detect_prefcore(4, Some("disabled\n"), &rankings);
    assert!(!off.enabled);
}
