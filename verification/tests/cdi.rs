//! Which devices a sandbox gets, and what bubblewrap applies of their edits.

use codex_sandbox::bwrap::{BwrapCdiDevice, BwrapCdiEdits, BwrapCdiMount};
use codex_sandbox::cdi::{
    expand_and_filter_devices, resolve_cdi_for_bwrap, scope_description, translate_mount,
    translate_resolved_edits, unsupported_device_warning, unsupported_edit_warning,
    unsupported_kind_label, CdiPermissions, FilteredCdiDevices, RuntimeCdiPolicy,
};
use codex_sandbox::cdi_resolver::{
    CdiDevice, CdiEditScope, CdiSpec, HostDevice, InspectedDeviceNode, RawContainerEdits,
    RawDeviceNode, ResolvedCdiDeviceNode, ResolvedCdiEdits, ResolvedCdiMount, UnsupportedCdiEdit,
    UnsupportedCdiEditKind, WireEdits,
};
use codex_sandbox::error::CodexErr;

fn strings(items: &[&str]) -> Vec<String> {
    items.iter().map(|item| item.to_string()).collect()
}

fn device_scope() -> CdiEditScope {
    CdiEditScope::Device {
        qualified_name: "vendor.com/device=0".to_string(),
        spec_kind: "vendor.com/device".to_string(),
        spec_path: "/etc/cdi/vendor.yaml".to_string(),
    }
}

fn plain_device() -> ResolvedCdiDeviceNode {
    ResolvedCdiDeviceNode {
        host_path: "/dev/vendor0".to_string(),
        container_path: "/dev/vendor0".to_string(),
        typ: Some("c".to_string()),
        major: Some(1),
        minor: Some(2),
        file_mode: None,
        permissions: None,
        uid: None,
        gid: None,
        scope: device_scope(),
    }
}

fn plain_mount(options: &[&str]) -> ResolvedCdiMount {
    ResolvedCdiMount {
        host_path: "/opt/vendor".to_string(),
        container_path: "/opt/vendor".to_string(),
        typ: None,
        options: strings(options),
        scope: device_scope(),
    }
}

fn no_raw_edits() -> RawContainerEdits {
    RawContainerEdits {
        env: None,
        device_nodes: None,
        net_devices: None,
        hooks: None,
        mounts: None,
        intel_rdt: false,
        additional_gids: None,
    }
}

fn known_device(edits: RawContainerEdits) -> CdiDevice {
    CdiDevice {
        spec: CdiSpec {
            id: 0,
            vendor: "nvidia.com".to_string(),
            class: "gpu".to_string(),
            path: "/etc/cdi/nvidia.yaml".to_string(),
            edits: None,
        },
        edits: WireEdits::Decoded(edits),
    }
}

#[test]
fn policy_filters_devices_with_deny_winning() {
    let available = vec![
        "nvidia.com/gpu=0".to_string(),
        "nvidia.com/gpu=debug-0".to_string(),
    ];
    let policy = RuntimeCdiPolicy {
        requested: vec!["nvidia.com/gpu=*".to_string()],
        allowed: Some(vec!["nvidia.com/gpu=*".to_string()]),
        denied: vec!["nvidia.com/gpu=debug-*".to_string()],
    };

    let result = expand_and_filter_devices(&available, &policy).unwrap();

    assert_eq!(
        result,
        FilteredCdiDevices {
            devices: vec!["nvidia.com/gpu=0".to_string()],
            warnings: vec![
                "CDI device nvidia.com/gpu=debug-0 is denied by managed policy and will not be added to the sandbox".to_string()
            ],
        }
    );
}

#[test]
fn policy_errors_when_selector_has_no_allowed_matches() {
    let available = vec!["nvidia.com/gpu=debug-0".to_string()];
    let policy = RuntimeCdiPolicy {
        requested: vec!["nvidia.com/gpu=*".to_string()],
        allowed: Some(vec!["nvidia.com/gpu=*".to_string()]),
        denied: vec!["nvidia.com/gpu=debug-*".to_string()],
    };

    let err = expand_and_filter_devices(&available, &policy).unwrap_err();

    assert_eq!(
        err.message(),
        "Fatal error: CDI selector `nvidia.com/gpu=*` did not match any devices allowed by policy"
    );
}

#[test]
fn unsupported_cdi_edits_become_warnings() {
    let edits = ResolvedCdiEdits {
        unsupported: vec![UnsupportedCdiEdit {
            kind: UnsupportedCdiEditKind::Hooks,
            count: 1,
            scope: device_scope(),
        }],
        ..Default::default()
    };

    let bwrap = translate_resolved_edits(edits).unwrap();

    assert_eq!(
        bwrap.warnings,
        vec![
            "CDI device vendor.com/device=0 requested hooks, which Codex cannot apply in bubblewrap; dropping hooks".to_string()
        ]
    );
}

#[test]
fn unsupported_cdi_device_details_become_warnings() {
    let edits = ResolvedCdiEdits {
        device_nodes: vec![
            ResolvedCdiDeviceNode {
                host_path: "/dev/vendor0".to_string(),
                container_path: "/dev/vendor0".to_string(),
                typ: Some("c".to_string()),
                major: Some(1),
                minor: Some(2),
                file_mode: None,
                permissions: Some("r".to_string()),
                uid: None,
                gid: None,
                scope: device_scope(),
            },
            ResolvedCdiDeviceNode {
                host_path: "/dev/vendor1".to_string(),
                container_path: "/dev/vendor1".to_string(),
                typ: Some("c".to_string()),
                major: Some(1),
                minor: Some(3),
                file_mode: Some(0o600),
                permissions: None,
                uid: None,
                gid: None,
                scope: device_scope(),
            },
            ResolvedCdiDeviceNode {
                host_path: "/tmp/vendor-fifo".to_string(),
                container_path: "/tmp/vendor-fifo".to_string(),
                typ: Some("p".to_string()),
                major: None,
                minor: None,
                file_mode: None,
                permissions: None,
                uid: None,
                gid: None,
                scope: device_scope(),
            },
        ],
        ..Default::default()
    };

    let bwrap = translate_resolved_edits(edits).unwrap();

    assert_eq!(bwrap.devices, Vec::<BwrapCdiDevice>::new());
    assert_eq!(
        bwrap.warnings,
        vec![
            "CDI device vendor.com/device=0 requested device node /dev/vendor0 with permissions `r`, which Codex cannot apply in bubblewrap; dropping device node".to_string(),
            "CDI device vendor.com/device=0 requested ownership or mode changes for device node /dev/vendor1, which Codex cannot apply in bubblewrap; dropping device node".to_string(),
            "CDI device vendor.com/device=0 requested non-device node /tmp/vendor-fifo with type `p`, which Codex cannot apply in bubblewrap; dropping device node".to_string(),
        ]
    );
}

#[test]
fn translates_clean_env_device_and_mount_edits() {
    let edits = ResolvedCdiEdits {
        env: vec!["VENDOR_VISIBLE_DEVICES=0".to_string()],
        device_nodes: vec![ResolvedCdiDeviceNode {
            host_path: "/dev/vendor0".to_string(),
            container_path: "/dev/vendor0".to_string(),
            typ: Some("c".to_string()),
            major: Some(1),
            minor: Some(2),
            file_mode: None,
            permissions: Some("rwm".to_string()),
            uid: None,
            gid: None,
            scope: device_scope(),
        }],
        mounts: vec![
            ResolvedCdiMount {
                host_path: "/opt/vendor/lib.so".to_string(),
                container_path: "/opt/vendor/lib.so".to_string(),
                typ: None,
                options: vec!["bind".to_string(), "ro".to_string()],
                scope: device_scope(),
            },
            ResolvedCdiMount {
                host_path: "/opt/vendor/bin".to_string(),
                container_path: "/opt/vendor/bin".to_string(),
                typ: None,
                options: Vec::new(),
                scope: device_scope(),
            },
        ],
        ..Default::default()
    };

    let bwrap = translate_resolved_edits(edits).unwrap();

    assert_eq!(
        bwrap,
        BwrapCdiEdits {
            env: vec![("VENDOR_VISIBLE_DEVICES".to_string(), "0".to_string())],
            devices: vec![BwrapCdiDevice {
                host_path: "/dev/vendor0".to_string(),
                container_path: "/dev/vendor0".to_string(),
            }],
            mounts: vec![
                BwrapCdiMount {
                    host_path: "/opt/vendor/lib.so".to_string(),
                    container_path: "/opt/vendor/lib.so".to_string(),
                    read_only: true,
                },
                BwrapCdiMount {
                    host_path: "/opt/vendor/bin".to_string(),
                    container_path: "/opt/vendor/bin".to_string(),
                    read_only: false,
                },
            ],
            warnings: Vec::new(),
        }
    );
}

#[test]
fn unsupported_mount_options_become_warnings() {
    let edits = ResolvedCdiEdits {
        mounts: vec![
            ResolvedCdiMount {
                host_path: "/opt/vendor/lib.so".to_string(),
                container_path: "/opt/vendor/lib.so".to_string(),
                typ: None,
                options: vec!["nosuid".to_string()],
                scope: device_scope(),
            },
            ResolvedCdiMount {
                host_path: "/opt/vendor/bin".to_string(),
                container_path: "/opt/vendor/bin".to_string(),
                typ: None,
                options: vec!["bind".to_string(), "nodev".to_string()],
                scope: device_scope(),
            },
            ResolvedCdiMount {
                host_path: "/opt/vendor/tmp".to_string(),
                container_path: "/opt/vendor/tmp".to_string(),
                typ: Some("tmpfs".to_string()),
                options: Vec::new(),
                scope: device_scope(),
            },
        ],
        ..Default::default()
    };

    let bwrap = translate_resolved_edits(edits).unwrap();

    assert_eq!(bwrap.mounts, Vec::<BwrapCdiMount>::new());
    assert_eq!(
        bwrap.warnings,
        vec![
            "CDI device vendor.com/device=0 requested mount /opt/vendor/lib.so without bind or rbind semantics, which Codex cannot apply in bubblewrap; dropping mount".to_string(),
            "CDI device vendor.com/device=0 requested mount /opt/vendor/bin with unsupported options `nodev`, which Codex cannot apply in bubblewrap; dropping mount".to_string(),
            "CDI device vendor.com/device=0 requested mount /opt/vendor/tmp with type `tmpfs`, which Codex cannot apply in bubblewrap; dropping mount".to_string(),
        ]
    );
}

#[test]
fn devices_come_once_in_the_order_of_the_selectors() {
    let available = strings(&["v.com/a=0", "v.com/a=1", "v.com/b=0"]);
    let policy = RuntimeCdiPolicy {
        requested: strings(&["v.com/b=?", "v.com/a=1", "v.com/*"]),
        allowed: None,
        denied: Vec::new(),
    };

    let result = expand_and_filter_devices(&available, &policy).unwrap();

    assert_eq!(result.devices, strings(&["v.com/b=0", "v.com/a=1", "v.com/a=0"]));
    assert_eq!(result.warnings, Vec::<String>::new());
}

#[test]
fn denied_devices_are_warned_about_once() {
    let available = strings(&["v.com/a=0", "v.com/a=debug"]);
    let policy = RuntimeCdiPolicy {
        requested: strings(&["v.com/a=*", "v.com/*"]),
        allowed: None,
        denied: strings(&["*=debug"]),
    };

    let result = expand_and_filter_devices(&available, &policy).unwrap();

    assert_eq!(result.devices, strings(&["v.com/a=0"]));
    assert_eq!(
        result.warnings,
        vec!["CDI device v.com/a=debug is denied by managed policy and will not be added to the sandbox".to_string()]
    );
}

#[test]
fn devices_outside_the_allow_list_are_left_out_without_warning() {
    let available = strings(&["v.com/a=0", "v.com/a=1"]);
    let policy = RuntimeCdiPolicy {
        requested: strings(&["v.com/a=*"]),
        allowed: Some(strings(&["v.com/a=1"])),
        denied: strings(&["v.com/a=0"]),
    };

    let result = expand_and_filter_devices(&available, &policy).unwrap();

    assert_eq!(result.devices, strings(&["v.com/a=1"]));
    assert_eq!(result.warnings, Vec::<String>::new());
}

#[test]
fn empty_allow_list_allows_nothing() {
    let policy = RuntimeCdiPolicy {
        requested: strings(&["v.com/a=0"]),
        allowed: Some(Vec::new()),
        denied: Vec::new(),
    };

    assert_eq!(
        expand_and_filter_devices(&strings(&["v.com/a=0"]), &policy),
        Err(CodexErr::Fatal(
            "CDI selector `v.com/a=0` did not match any devices allowed by policy".to_string()
        ))
    );
}

#[test]
fn first_selector_without_device_is_named() {
    let policy = RuntimeCdiPolicy {
        requested: strings(&["v.com/a=0", "x.com/*", "y.com/*"]),
        allowed: None,
        denied: Vec::new(),
    };

    assert_eq!(
        expand_and_filter_devices(&strings(&["v.com/a=0"]), &policy),
        Err(CodexErr::Fatal(
            "CDI selector `x.com/*` did not match any devices allowed by policy".to_string()
        ))
    );
}

#[test]
fn permissions_become_a_policy() {
    let cdi = CdiPermissions {
        devices: strings(&["nvidia.com/gpu=*"]),
        allowed_devices: Some(strings(&["nvidia.com/gpu=0"])),
        denied_devices: strings(&["nvidia.com/gpu=debug-*"]),
    };

    assert_eq!(
        RuntimeCdiPolicy::from_permission_profile(Some(&cdi)),
        Some(RuntimeCdiPolicy {
            requested: strings(&["nvidia.com/gpu=*"]),
            allowed: Some(strings(&["nvidia.com/gpu=0"])),
            denied: strings(&["nvidia.com/gpu=debug-*"]),
        })
    );
    assert_eq!(RuntimeCdiPolicy::from_permission_profile(None), None);
}

#[test]
fn malformed_environment_entries_become_warnings() {
    let edits = ResolvedCdiEdits {
        env: strings(&["A=b=c", "=x", "plain", "EMPTY="]),
        ..Default::default()
    };

    let bwrap = translate_resolved_edits(edits).unwrap();

    assert_eq!(
        bwrap.env,
        vec![
            ("A".to_string(), "b=c".to_string()),
            ("EMPTY".to_string(), String::new()),
        ]
    );
    assert_eq!(
        bwrap.warnings,
        vec![
            "CDI requested malformed environment entry `=x`, which Codex cannot apply in bubblewrap; dropping env".to_string(),
            "CDI requested malformed environment entry `plain`, which Codex cannot apply in bubblewrap; dropping env".to_string(),
        ]
    );
}

#[test]
fn relative_paths_are_refused() {
    let mut device = plain_device();
    device.host_path = "dev/vendor0".to_string();
    assert_eq!(
        unsupported_device_warning(&device),
        Some("CDI device vendor.com/device=0 requested device node /dev/vendor0 from dev/vendor0, but Codex only supports absolute device paths in bubblewrap; dropping device node".to_string())
    );

    let mut mount = plain_mount(&[]);
    mount.container_path = "opt/vendor".to_string();
    assert_eq!(
        translate_mount(&mount),
        Err("CDI device vendor.com/device=0 requested mount opt/vendor from /opt/vendor, but Codex only supports absolute mount paths in bubblewrap; dropping mount".to_string())
    );

    let mut nowhere = plain_mount(&[]);
    nowhere.host_path = String::new();
    assert!(translate_mount(&nowhere).is_err());
}

#[test]
fn device_types_and_permissions_that_change_nothing_are_accepted() {
    for typ in [None, Some("c"), Some("b"), Some("u")] {
        for permissions in [None, Some(""), Some("rwm")] {
            let mut device = plain_device();
            device.typ = typ.map(str::to_string);
            device.permissions = permissions.map(str::to_string);
            assert_eq!(unsupported_device_warning(&device), None);
        }
    }
}

#[test]
fn owners_are_refused() {
    let expected = "CDI device vendor.com/device=0 requested ownership or mode changes for device node /dev/vendor0, which Codex cannot apply in bubblewrap; dropping device node";
    let mut with_uid = plain_device();
    with_uid.uid = Some(0);
    let mut with_gid = plain_device();
    with_gid.gid = Some(0);
    assert_eq!(unsupported_device_warning(&with_uid), Some(expected.to_string()));
    assert_eq!(unsupported_device_warning(&with_gid), Some(expected.to_string()));
}

#[test]
fn bind_mounts_are_read_only_where_asked() {
    let made = |read_only: bool| {
        Ok(Some(BwrapCdiMount {
            host_path: "/opt/vendor".to_string(),
            container_path: "/opt/vendor".to_string(),
            read_only,
        }))
    };
    assert_eq!(translate_mount(&plain_mount(&["rbind", "ro"])), made(true));
    assert_eq!(translate_mount(&plain_mount(&["bind"])), made(false));
    let mut typed = plain_mount(&[]);
    typed.typ = Some("bind".to_string());
    assert_eq!(translate_mount(&typed), made(false));
    typed.typ = Some("none".to_string());
    assert_eq!(translate_mount(&typed), made(false));
    typed.typ = Some(String::new());
    assert_eq!(translate_mount(&typed), made(false));
}

#[test]
fn unsupported_options_are_listed_once_in_order() {
    assert_eq!(
        translate_mount(&plain_mount(&["rbind", "nosuid", "nodev", "nosuid", "ro", "Z"])),
        Err("CDI device vendor.com/device=0 requested mount /opt/vendor with unsupported options `Z,nodev,nosuid`, which Codex cannot apply in bubblewrap; dropping mount".to_string())
    );
}

#[test]
fn read_only_alone_is_no_bind_mount() {
    assert_eq!(
        translate_mount(&plain_mount(&["ro"])),
        Err("CDI device vendor.com/device=0 requested mount /opt/vendor without bind or rbind semantics, which Codex cannot apply in bubblewrap; dropping mount".to_string())
    );
}

#[test]
fn scopes_and_kinds_have_names() {
    let spec = CdiEditScope::Spec {
        kind: "vendor.com/device".to_string(),
        path: "/etc/cdi/vendor.yaml".to_string(),
    };
    assert_eq!(
        scope_description(&spec),
        "CDI spec vendor.com/device at /etc/cdi/vendor.yaml"
    );
    assert_eq!(scope_description(&device_scope()), "CDI device vendor.com/device=0");
    assert_eq!(unsupported_kind_label(&UnsupportedCdiEditKind::Hooks), "hooks");
    assert_eq!(unsupported_kind_label(&UnsupportedCdiEditKind::NetDevices), "netDevices");
    assert_eq!(unsupported_kind_label(&UnsupportedCdiEditKind::IntelRdt), "intelRdt");
    assert_eq!(
        unsupported_kind_label(&UnsupportedCdiEditKind::AdditionalGids),
        "additionalGids"
    );
    assert_eq!(
        unsupported_edit_warning(&UnsupportedCdiEdit {
            kind: UnsupportedCdiEditKind::AdditionalGids,
            count: 2,
            scope: spec,
        }),
        "CDI spec vendor.com/device at /etc/cdi/vendor.yaml requested additionalGids, which Codex cannot apply in bubblewrap; dropping additionalGids"
    );
}

#[test]
fn launch_collects_policy_warnings_before_edit_warnings() {
    let available = strings(&["nvidia.com/gpu=0", "nvidia.com/gpu=debug-0"]);
    let policy = RuntimeCdiPolicy {
        requested: strings(&["nvidia.com/gpu=*"]),
        allowed: None,
        denied: strings(&["nvidia.com/gpu=debug-*"]),
    };
    let mut edits = no_raw_edits();
    edits.env = Some(strings(&["GPU=0"]));
    edits.hooks = Some(1);
    edits.device_nodes = Some(vec![InspectedDeviceNode {
        node: RawDeviceNode {
            path: "/dev/nvidia0".to_string(),
            host_path: None,
            typ: None,
            major: None,
            minor: None,
            file_mode: None,
            permissions: None,
            uid: None,
            gid: None,
        },
        host: Ok(HostDevice { typ: "c".to_string(), major: 195, minor: 0 }),
    }]);

    let bwrap = resolve_cdi_for_bwrap(&available, &policy, &[Some(known_device(edits))]).unwrap();

    assert_eq!(
        bwrap,
        BwrapCdiEdits {
            env: vec![("GPU".to_string(), "0".to_string())],
            devices: vec![BwrapCdiDevice {
                host_path: "/dev/nvidia0".to_string(),
                container_path: "/dev/nvidia0".to_string(),
            }],
            mounts: Vec::new(),
            warnings: vec![
                "CDI device nvidia.com/gpu=debug-0 is denied by managed policy and will not be added to the sandbox".to_string(),
                "CDI device nvidia.com/gpu=0 requested hooks, which Codex cannot apply in bubblewrap; dropping hooks".to_string(),
            ],
        }
    );
}

#[test]
fn launch_fails_with_the_policy() {
    let policy = RuntimeCdiPolicy {
        requested: strings(&["nvidia.com/gpu=*"]),
        allowed: None,
        denied: Vec::new(),
    };
    assert_eq!(
        resolve_cdi_for_bwrap(&[], &policy, &[]),
        Err(CodexErr::Fatal(
            "CDI selector `nvidia.com/gpu=*` did not match any devices allowed by policy"
                .to_string()
        ))
    );
}

#[test]
fn launch_fails_where_a_device_is_unknown() {
    let policy = RuntimeCdiPolicy {
        requested: strings(&["nvidia.com/gpu=*"]),
        allowed: None,
        denied: Vec::new(),
    };
    let err = resolve_cdi_for_bwrap(&strings(&["nvidia.com/gpu=0"]), &policy, &[None]).unwrap_err();
    assert_eq!(
        err.message(),
        "Fatal error: failed to resolve CDI devices for sandbox: unresolvable CDI devices nvidia.com/gpu=0"
    );
}

#[test]
fn launch_without_requests_is_a_launch_without_cdi() {
    let policy = RuntimeCdiPolicy {
        requested: Vec::new(),
        allowed: None,
        denied: strings(&["*"]),
    };
    assert_eq!(
        resolve_cdi_for_bwrap(&strings(&["nvidia.com/gpu=0"]), &policy, &[]),
        Ok(BwrapCdiEdits::default())
    );
}

#[test]
fn every_edit_is_applied_or_warned_about_once() {
    let mut refused = plain_device();
    refused.gid = Some(7);
    let edits = ResolvedCdiEdits {
        env: strings(&["A=1", "broken"]),
        device_nodes: vec![plain_device(), refused],
        mounts: vec![plain_mount(&[]), plain_mount(&["noexec"])],
        unsupported: vec![UnsupportedCdiEdit {
            kind: UnsupportedCdiEditKind::IntelRdt,
            count: 1,
            scope: device_scope(),
        }],
    };

    let bwrap = translate_resolved_edits(edits).unwrap();

    assert_eq!(bwrap.env.len() + bwrap.devices.len() + bwrap.mounts.len(), 3);
    assert_eq!(bwrap.warnings.len(), 4);
}

#[test]
fn more_deny_patterns_take_devices_away() {
    let available = strings(&["v.com/a=0", "v.com/a=1", "v.com/a=2"]);
    let granted = |denied: &[&str]| {
        let policy = RuntimeCdiPolicy {
            requested: strings(&["v.com/a=*"]),
            allowed: None,
            denied: strings(denied),
        };
        expand_and_filter_devices(&available, &policy).map(|filtered| filtered.devices)
    };
    assert_eq!(granted(&["*=0"]), Ok(strings(&["v.com/a=1", "v.com/a=2"])));
    assert_eq!(granted(&["*=0", "*=2"]), Ok(strings(&["v.com/a=1"])));
    assert!(granted(&["*=0", "*=2", "v.com/*"]).is_err());
}

#[test]
fn order_and_number_of_mount_options_do_not_matter() {
    assert_eq!(
        translate_mount(&plain_mount(&["ro", "bind", "ro"])),
        translate_mount(&plain_mount(&["bind", "ro"]))
    );
    assert_eq!(
        translate_mount(&plain_mount(&["b", "bind", "a", "b"])),
        translate_mount(&plain_mount(&["a", "b", "bind"]))
    );
}

#[test]
fn edits_are_translated_one_after_the_other() {
    let with_env = |env: &[&str]| {
        let edits = ResolvedCdiEdits { env: strings(env), ..Default::default() };
        translate_resolved_edits(edits).unwrap()
    };
    let mut first = with_env(&["A=1", "x"]);
    let second = with_env(&["y", "B=2"]);
    first.env.extend(second.env);
    first.warnings.extend(second.warnings);
    assert_eq!(with_env(&["A=1", "x", "y", "B=2"]), first);
}
