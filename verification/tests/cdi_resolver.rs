//! What the CDI specs of the selected devices ask for.

use codex_sandbox::cdi_resolver::{
    decode_container_edits, device_types_match, resolve_cdi_edits, resolve_device_node, CdiDevice,
    CdiEditScope, CdiSpec, HostDevice, InspectedDeviceNode, RawContainerEdits, RawDeviceNode,
    RawMount, ResolvedCdiDeviceNode, ResolvedCdiEdits, ResolvedCdiMount, UnsupportedCdiEdit,
    UnsupportedCdiEditKind, WireEdits,
};

const SPEC_PATH: &str = "/etc/cdi/vendor.yaml";

fn strings(items: &[&str]) -> Vec<String> {
    items.iter().map(|item| item.to_string()).collect()
}

fn no_raw_edits() -> RawContainerEdits {
    RawContainerEdits {
        env: None,
        device_nodes: None,
        net_devices: None,
        hooks: None,
        mounts: None,
        intel_rdt: false,
        additional_gids: None,
    }
}

fn with_env(entry: &str) -> WireEdits {
    let mut edits = no_raw_edits();
    edits.env = Some(strings(&[entry]));
    WireEdits::Decoded(edits)
}

fn spec(id: usize, edits: Option<WireEdits>) -> CdiSpec {
    CdiSpec {
        id,
        vendor: "vendor.com".to_string(),
        class: "device".to_string(),
        path: SPEC_PATH.to_string(),
        edits,
    }
}

fn device_scope(qualified_name: &str) -> CdiEditScope {
    CdiEditScope::Device {
        qualified_name: qualified_name.to_string(),
        spec_kind: "vendor.com/device".to_string(),
        spec_path: SPEC_PATH.to_string(),
    }
}

fn raw_node(path: &str) -> RawDeviceNode {
    RawDeviceNode {
        path: path.to_string(),
        host_path: None,
        typ: None,
        major: None,
        minor: None,
        file_mode: None,
        permissions: None,
        uid: None,
        gid: None,
    }
}

fn on_host(node: RawDeviceNode, typ: &str, major: i64, minor: i64) -> InspectedDeviceNode {
    InspectedDeviceNode {
        node,
        host: Ok(HostDevice { typ: typ.to_string(), major, minor }),
    }
}

#[test]
fn resolves_edits_through_the_published_crate_api() {
    let spec_path = SPEC_PATH.to_string();
    let mut spec_edits = no_raw_edits();
    spec_edits.env = Some(vec!["GLOBAL=1".to_string()]);
    spec_edits.hooks = Some(1);
    let mut node = raw_node("/dev/cdi-null");
    node.host_path = Some("/dev/null".to_string());
    node.permissions = Some("rwm".to_string());
    let mut device_edits = no_raw_edits();
    device_edits.env = Some(vec!["DEVICE=1".to_string()]);
    device_edits.device_nodes = Some(vec![on_host(node, "c", 1, 3)]);
    device_edits.mounts = Some(vec![RawMount {
        host_path: "/tmp".to_string(),
        container_path: "/mnt/host-tmp".to_string(),
        typ: None,
        options: Some(vec!["bind".to_string(), "ro".to_string()]),
    }]);
    let found = vec![Some(CdiDevice {
        spec: spec(0, Some(WireEdits::Decoded(spec_edits))),
        edits: WireEdits::Decoded(device_edits),
    })];

    let resolved = resolve_cdi_edits(&["vendor.com/device=gpu0".to_string()], &found)
        .expect("resolve CDI edits");

    assert_eq!(
        resolved,
        ResolvedCdiEdits {
            env: vec!["GLOBAL=1".to_string(), "DEVICE=1".to_string()],
            device_nodes: vec![ResolvedCdiDeviceNode {
                host_path: "/dev/null".to_string(),
                container_path: "/dev/cdi-null".to_string(),
                typ: Some("c".to_string()),
                major: Some(1),
                minor: Some(3),
                file_mode: None,
                permissions: Some("rwm".to_string()),
                uid: None,
                gid: None,
                scope: CdiEditScope::Device {
                    qualified_name: "vendor.com/device=gpu0".to_string(),
                    spec_kind: "vendor.com/device".to_string(),
                    spec_path: spec_path.clone(),
                },
            }],
            mounts: vec![ResolvedCdiMount {
                host_path: "/tmp".to_string(),
                container_path: "/mnt/host-tmp".to_string(),
                typ: None,
                options: vec!["bind".to_string(), "ro".to_string()],
                scope: CdiEditScope::Device {
                    qualified_name: "vendor.com/device=gpu0".to_string(),
                    spec_kind: "vendor.com/device".to_string(),
                    spec_path: spec_path.clone(),
                },
            }],
            unsupported: vec![UnsupportedCdiEdit {
                kind: UnsupportedCdiEditKind::Hooks,
                count: 1,
                scope: CdiEditScope::Spec {
                    kind: "vendor.com/device".to_string(),
                    path: spec_path,
                },
            }],
        }
    );
}

#[test]
fn spec_edits_are_added_with_the_first_device_only() {
    let found = vec![
        Some(CdiDevice { spec: spec(0, Some(with_env("SPEC=0"))), edits: with_env("A=1") }),
        Some(CdiDevice { spec: spec(0, Some(with_env("SPEC=0"))), edits: with_env("B=1") }),
        Some(CdiDevice { spec: spec(1, Some(with_env("SPEC=1"))), edits: with_env("C=1") }),
    ];
    let devices = strings(&["v/d=a", "v/d=b", "v/d=c"]);

    let resolved = resolve_cdi_edits(&devices, &found).unwrap();

    assert_eq!(resolved.env, strings(&["SPEC=0", "A=1", "B=1", "SPEC=1", "C=1"]));
}

#[test]
fn unknown_devices_are_all_named() {
    let found = vec![
        None,
        Some(CdiDevice { spec: spec(0, None), edits: with_env("A=1") }),
        None,
    ];
    assert_eq!(
        resolve_cdi_edits(&strings(&["v/d=a", "v/d=b", "v/d=c"]), &found),
        Err("unresolvable CDI devices v/d=a, v/d=c".to_string())
    );
    assert_eq!(
        resolve_cdi_edits(&strings(&["v/d=a"]), &[]),
        Err("unresolvable CDI devices v/d=a".to_string())
    );
}

#[test]
fn no_devices_ask_for_nothing() {
    assert_eq!(resolve_cdi_edits(&[], &[]), Ok(ResolvedCdiEdits::default()));
}

#[test]
fn edits_that_cannot_be_read_end_the_resolution() {
    let not_encoded = WireEdits::NotEncoded("bad value".to_string());
    let not_decoded = WireEdits::NotDecoded("missing field `path`".to_string());
    assert_eq!(
        decode_container_edits(&not_encoded),
        Err("failed to encode CDI container edits: bad value".to_string())
    );
    assert_eq!(
        decode_container_edits(&not_decoded),
        Err("failed to decode CDI container edits: missing field `path`".to_string())
    );
    let found = vec![Some(CdiDevice { spec: spec(0, None), edits: not_decoded })];
    assert_eq!(
        resolve_cdi_edits(&strings(&["v/d=a"]), &found),
        Err("failed to decode CDI container edits: missing field `path`".to_string())
    );
    let in_spec = vec![Some(CdiDevice {
        spec: spec(0, Some(not_encoded)),
        edits: with_env("A=1"),
    })];
    assert_eq!(
        resolve_cdi_edits(&strings(&["v/d=a"]), &in_spec),
        Err("failed to encode CDI container edits: bad value".to_string())
    );
}

#[test]
fn nodes_take_from_the_host_what_they_leave_open() {
    let node = resolve_device_node(
        &on_host(raw_node("/dev/x"), "b", 8, 1),
        device_scope("v/d=a"),
    )
    .unwrap();
    assert_eq!(node.host_path, "/dev/x");
    assert_eq!(node.container_path, "/dev/x");
    assert_eq!(node.typ, Some("b".to_string()));
    assert_eq!((node.major, node.minor), (Some(8), Some(1)));

    let mut declared = raw_node("/dev/x");
    declared.typ = Some(String::new());
    declared.major = Some(5);
    let node = resolve_device_node(&on_host(declared, "c", 1, 3), device_scope("v/d=a")).unwrap();
    assert_eq!(node.typ, Some("c".to_string()));
    assert_eq!((node.major, node.minor), (Some(5), Some(3)));
}

#[test]
fn fifos_have_no_device_numbers() {
    let node = resolve_device_node(
        &on_host(raw_node("/run/fifo"), "p", 0, 0),
        device_scope("v/d=a"),
    )
    .unwrap();
    assert_eq!(node.typ, Some("p".to_string()));
    assert_eq!((node.major, node.minor), (None, None));
}

#[test]
fn declared_types_have_to_agree_with_the_host() {
    assert!(device_types_match("c", "c"));
    assert!(device_types_match("u", "c"));
    assert!(!device_types_match("c", "u"));
    assert!(!device_types_match("b", "c"));

    let mut unbuffered = raw_node("/dev/x");
    unbuffered.typ = Some("u".to_string());
    let node = resolve_device_node(&on_host(unbuffered, "c", 1, 3), device_scope("v/d=a")).unwrap();
    assert_eq!(node.typ, Some("u".to_string()));

    let mut block = raw_node("/dev/x");
    block.host_path = Some("/dev/y".to_string());
    block.typ = Some("b".to_string());
    assert_eq!(
        resolve_device_node(&on_host(block, "c", 1, 3), device_scope("v/d=a")),
        Err("CDI device (/dev/x, /dev/y), host type mismatch (b, c)".to_string())
    );
}

#[test]
fn nodes_that_the_host_does_not_have_are_refused() {
    let inspected = InspectedDeviceNode {
        node: raw_node("/dev/x"),
        host: Err("No such file or directory".to_string()),
    };
    let expected =
        "failed to inspect CDI device node host path /dev/x: No such file or directory".to_string();
    assert_eq!(
        resolve_device_node(&inspected, device_scope("v/d=a")),
        Err(expected.clone())
    );

    let mut edits = no_raw_edits();
    edits.env = Some(strings(&["A=1"]));
    edits.device_nodes = Some(vec![on_host(raw_node("/dev/ok"), "c", 1, 3), inspected]);
    edits.hooks = Some(2);
    let mut resolved = ResolvedCdiEdits::default();
    assert_eq!(
        resolved.append_container_edits(&WireEdits::Decoded(edits), device_scope("v/d=a")),
        Err(expected)
    );
    assert_eq!(resolved.env, strings(&["A=1"]));
    assert_eq!(resolved.device_nodes.len(), 1);
    assert_eq!(resolved.unsupported, Vec::new());
}

#[test]
fn edits_without_counterpart_are_noted_with_their_number() {
    let mut edits = no_raw_edits();
    edits.hooks = Some(2);
    edits.net_devices = Some(0);
    edits.intel_rdt = true;
    edits.additional_gids = Some(vec![10, 20, 30]);
    let mut resolved = ResolvedCdiEdits::default();

    resolved
        .append_container_edits(&WireEdits::Decoded(edits), device_scope("v/d=a"))
        .unwrap();

    let noted: Vec<(UnsupportedCdiEditKind, usize)> =
        resolved.unsupported.into_iter().map(|edit| (edit.kind, edit.count)).collect();
    assert_eq!(
        noted,
        vec![
            (UnsupportedCdiEditKind::Hooks, 2),
            (UnsupportedCdiEditKind::IntelRdt, 1),
            (UnsupportedCdiEditKind::AdditionalGids, 3),
        ]
    );

    let mut other = ResolvedCdiEdits::default();
    other.report_unsupported(UnsupportedCdiEditKind::NetDevices, 4, device_scope("v/d=a"));
    other.report_unsupported(UnsupportedCdiEditKind::Hooks, 0, device_scope("v/d=a"));
    assert_eq!(
        other.unsupported,
        vec![UnsupportedCdiEdit {
            kind: UnsupportedCdiEditKind::NetDevices,
            count: 4,
            scope: device_scope("v/d=a"),
        }]
    );
}

#[test]
fn mounts_without_options_have_none() {
    let mut edits = no_raw_edits();
    edits.mounts = Some(vec![RawMount {
        host_path: "/a".to_string(),
        container_path: "/b".to_string(),
        typ: Some("bind".to_string()),
        options: None,
    }]);
    let mut resolved = ResolvedCdiEdits::default();
    resolved
        .append_container_edits(&WireEdits::Decoded(edits), device_scope("v/d=a"))
        .unwrap();
    assert_eq!(
        resolved.mounts,
        vec![ResolvedCdiMount {
            host_path: "/a".to_string(),
            container_path: "/b".to_string(),
            typ: Some("bind".to_string()),
            options: Vec::new(),
            scope: device_scope("v/d=a"),
        }]
    );
}

#[test]
fn edits_are_added_after_those_before() {
    let mut resolved = ResolvedCdiEdits::default();
    resolved.append_container_edits(&with_env("A=1"), device_scope("v/d=a")).unwrap();
    let mut edits = no_raw_edits();
    edits.env = Some(strings(&["B=1", "A=1"]));
    edits.device_nodes = Some(vec![on_host(raw_node("/dev/x"), "c", 1, 3)]);
    resolved
        .append_container_edits(&WireEdits::Decoded(edits), device_scope("v/d=b"))
        .unwrap();
    assert_eq!(resolved.env, strings(&["A=1", "B=1", "A=1"]));
    assert_eq!(resolved.device_nodes[0].scope, device_scope("v/d=b"));
}
