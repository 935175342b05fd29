//! Which CDI devices a sandbox gets, and what bubblewrap can apply of their edits.

use vstd::prelude::*;

use crate::bwrap::{
    no_bwrap_edits, pair_texts, BwrapCdiDevice, BwrapCdiDeviceView, BwrapCdiEdits,
    BwrapCdiEditsView, BwrapCdiMount, BwrapCdiMountView,
};
use crate::cdi_resolver::{
    found_views, resolution, resolve_cdi_edits, CdiDevice, CdiDeviceView, CdiEditScope,
    CdiEditScopeView, ResolvedCdiDeviceNode, ResolvedCdiDeviceNodeView, ResolvedCdiEdits,
    ResolvedCdiEditsView, ResolvedCdiMount, ResolvedCdiMountView, UnsupportedCdiEdit,
    UnsupportedCdiEditKind, UnsupportedCdiEditView,
};
use crate::error::CodexErr;
use crate::model::{result_view, views};
use crate::pattern::{
    compile_patterns, matches_any, pattern_texts, some_matches, wildcard_matches, CdiPattern,
};
use crate::text::{
    contains_text, copy_texts, distinct, join, joined, optional_text, same_text, sort_distinct,
    sorted_distinct, split_at_first, split_once, texts,
};

verus! {

/// What a sandbox asks for and may have.
#[derive(Debug, Clone, PartialEq, Eq)]
pub struct RuntimeCdiPolicy {
    /// The selectors that the sandbox asks for.
    pub requested: Vec<String>,
    /// Patterns of the devices that may be used; where there are none, every device may.
    pub allowed: Option<Vec<String>>,
    /// Patterns of the devices that may not be used, whatever else says so.
    pub denied: Vec<String>,
}

/// The texts of a [`RuntimeCdiPolicy`].
pub struct CdiPolicyView {
    pub requested: Seq<Seq<char>>,
    pub allowed: Option<Seq<Seq<char>>>,
    pub denied: Seq<Seq<char>>,
}

impl View for RuntimeCdiPolicy {
    type V = CdiPolicyView;

    open spec fn view(&self) -> CdiPolicyView {
        CdiPolicyView {
            requested: texts(self.requested@),
            allowed: match self.allowed {
                Some(allowed) => Some(texts(allowed@)),
                None => None,
            },
            denied: texts(self.denied@),
        }
    }
}

/// The devices a sandbox gets, and what it has to be told about those it does not get.
#[derive(Debug, Clone, PartialEq, Eq)]
pub struct FilteredCdiDevices {
    pub devices: Vec<String>,
    pub warnings: Vec<String>,
}

/// The texts of a [`FilteredCdiDevices`].
#[verifier::ext_equal]
pub struct FilteredCdiDevicesView {
    pub devices: Seq<Seq<char>>,
    pub warnings: Seq<Seq<char>>,
}

impl View for FilteredCdiDevices {
    type V = FilteredCdiDevicesView;

    open spec fn view(&self) -> FilteredCdiDevicesView {
        FilteredCdiDevicesView { devices: texts(self.devices@), warnings: texts(self.warnings@) }
    }
}

impl CdiPolicyView {
    /// Whether the allow list lets `device` through.
    pub open spec fn allows(self, device: Seq<char>) -> bool {
        match self.allowed {
            Some(allowed) => some_matches(allowed, device),
            None => true,
        }
    }

    /// Whether the deny list names `device`.
    pub open spec fn denies(self, device: Seq<char>) -> bool {
        some_matches(self.denied, device)
    }

    /// Whether `selector` gets the sandbox `device`.
    pub open spec fn grants(self, selector: Seq<char>, device: Seq<char>) -> bool {
        wildcard_matches(selector, device) && self.allows(device) && !self.denies(device)
    }

    /// Whether `selector` would get the sandbox `device`, were it not for the deny list.
    pub open spec fn withholds(self, selector: Seq<char>, device: Seq<char>) -> bool {
        wildcard_matches(selector, device) && self.allows(device) && self.denies(device)
    }

    /// Whether `selector` gets the sandbox one of the `available` devices.
    pub open spec fn serves(self, selector: Seq<char>, available: Seq<Seq<char>>) -> bool {
        exists|i: int| 0 <= i < available.len() && self.grants(selector, #[trigger] available[i])
    }

    /// The first of `selectors` that gets the sandbox no `available` device.
    pub open spec fn first_unserved(
        self,
        selectors: Seq<Seq<char>>,
        available: Seq<Seq<char>>,
    ) -> Option<Seq<char>>
        decreases selectors.len(),
    {
        if selectors.len() == 0 {
            None
        } else if !self.serves(selectors[0], available) {
            Some(selectors[0])
        } else {
            self.first_unserved(selectors.drop_first(), available)
        }
    }

    /// The devices that each of `selectors` in turn gets the sandbox.
    pub open spec fn grants_of(
        self,
        selectors: Seq<Seq<char>>,
        available: Seq<Seq<char>>,
    ) -> Seq<Seq<char>>
        decreases selectors.len(),
    {
        if selectors.len() == 0 {
            Seq::empty()
        } else {
            self.grants_of(selectors.drop_last(), available) + available.filter(
                |device: Seq<char>| self.grants(selectors.last(), device),
            )
        }
    }

    /// The devices that the deny list keeps from each of `selectors` in turn.
    pub open spec fn withholdings_of(
        self,
        selectors: Seq<Seq<char>>,
        available: Seq<Seq<char>>,
    ) -> Seq<Seq<char>>
        decreases selectors.len(),
    {
        if selectors.len() == 0 {
            Seq::empty()
        } else {
            self.withholdings_of(selectors.drop_last(), available) + available.filter(
                |device: Seq<char>| self.withholds(selectors.last(), device),
            )
        }
    }

    /// The devices that the sandbox gets, each once, in the order in which the selectors ask for
    /// them.
    pub open spec fn granted(self, available: Seq<Seq<char>>) -> Seq<Seq<char>> {
        distinct(self.grants_of(self.requested, available))
    }

    /// The devices that are asked for and denied, each once.
    pub open spec fn withheld(self, available: Seq<Seq<char>>) -> Seq<Seq<char>> {
        distinct(self.withholdings_of(self.requested, available))
    }

    /// What the policy makes of the `available` devices: the devices of the sandbox with a
    /// warning for each denied one, or, where a selector gets it nothing, why there is no sandbox.
    pub open spec fn outcome(self, available: Seq<Seq<char>>) -> Result<
        FilteredCdiDevicesView,
        Seq<char>,
    > {
        match self.first_unserved(self.requested, available) {
            Some(selector) => Err(unserved_reason(selector)),
            None => Ok(
                FilteredCdiDevicesView {
                    devices: self.granted(available),
                    warnings: self.withheld(available).map_values(
                        |device: Seq<char>| denied_warning(device),
                    ),
                },
            ),
        }
    }
}

/// The warning about a device that the deny list keeps from the sandbox.
pub open spec fn denied_warning(device: Seq<char>) -> Seq<char> {
    "CDI device "@ + device
        + " is denied by managed policy and will not be added to the sandbox"@
}

/// Why a selector that gets the sandbox nothing ends the launch.
pub open spec fn unserved_reason(selector: Seq<char>) -> Seq<char> {
    "CDI selector `"@ + selector + "` did not match any devices allowed by policy"@
}

/// Expands the requested selectors to the `available` devices that the policy lets through.
pub fn expand_and_filter_devices(available: &[String], policy: &RuntimeCdiPolicy) -> (result:
    Result<FilteredCdiDevices, CodexErr>)
    ensures
        result_view(result) == policy@.outcome(texts(available@)),
{
    let allowed: Option<Vec<CdiPattern>> = match &policy.allowed {
        Some(allowed) => Some(compile_patterns(allowed.as_slice())),
        None => None,
    };
    let denied = compile_patterns(policy.denied.as_slice());
    let mut devices: Vec<String> = Vec::new();
    let mut withheld: Vec<String> = Vec::new();
    let mut warnings: Vec<String> = Vec::new();

    let ghost p = policy@;
    let ghost all = texts(available@);
    let ghost selectors = p.requested;
    assert(selectors.skip(0) == selectors);
    assert(texts(devices@) == distinct(p.grants_of(selectors.take(0), all)));
    assert(texts(withheld@) == distinct(p.withholdings_of(selectors.take(0), all)));
    assert(texts(warnings@) == texts(withheld@).map_values(|d: Seq<char>| denied_warning(d)));
    for k in 0..policy.requested.len()
        invariant
            p == policy@,
            all == texts(available@),
            selectors == p.requested,
            pattern_texts(denied@) == p.denied,
            match allowed {
                Some(patterns) => p.allowed == Some(pattern_texts(patterns@)),
                None => p.allowed is None,
            },
            texts(devices@) == distinct(p.grants_of(selectors.take(k as int), all)),
            texts(withheld@) == distinct(p.withholdings_of(selectors.take(k as int), all)),
            texts(warnings@) == texts(withheld@).map_values(
                |d: Seq<char>| denied_warning(d),
            ),
            p.first_unserved(selectors.skip(k as int), all) == p.first_unserved(selectors, all),
    {
        let selector = &policy.requested[k];
        let ghost s = selectors[k as int];
        let selector_pattern = CdiPattern::new(selector.as_str());
        let mut served = false;
        let ghost granting = |d: Seq<char>| p.grants(s, d);
        let ghost withholding = |d: Seq<char>| p.withholds(s, d);
        let ghost granted_before = p.grants_of(selectors.take(k as int), all);
        let ghost withheld_before = p.withholdings_of(selectors.take(k as int), all);
        proof {
            assert(all.take(0).filter(granting) == Seq::<Seq<char>>::empty());
            assert(all.take(0).filter(withholding) == Seq::<Seq<char>>::empty());
            assert(granted_before + Seq::<Seq<char>>::empty() == granted_before);
            assert(withheld_before + Seq::<Seq<char>>::empty() == withheld_before);
        }
        for j in 0..available.len()
            invariant
                p == policy@,
                all == texts(available@),
                s == selector_pattern@,
                granting == (|d: Seq<char>| p.grants(s, d)),
                withholding == (|d: Seq<char>| p.withholds(s, d)),
                pattern_texts(denied@) == p.denied,
                match allowed {
                    Some(patterns) => p.allowed == Some(pattern_texts(patterns@)),
                    None => p.allowed is None,
                },
                texts(devices@) == distinct(granted_before + all.take(j as int).filter(granting)),
                texts(withheld@) == distinct(
                    withheld_before + all.take(j as int).filter(withholding),
                ),
                texts(warnings@) == texts(withheld@).map_values(
                    |d: Seq<char>| denied_warning(d),
                ),
                served == exists|i: int| 0 <= i < j && p.grants(s, #[trigger] all[i]),
        {
            let device = &available[j];
            let ghost d = all[j as int];
            proof {
                assert(all.take(j + 1) == all.take(j as int).push(d));
                all.take(j as int).lemma_filter_push(d, granting);
                all.take(j as int).lemma_filter_push(d, withholding);
                let granted_so_far = granted_before + all.take(j as int).filter(granting);
                assert(granted_so_far.push(d).drop_last() == granted_so_far);
                assert(granted_before + all.take(j as int).filter(granting).push(d)
                    == granted_so_far.push(d));
                let withheld_so_far = withheld_before + all.take(j as int).filter(withholding);
                assert(withheld_so_far.push(d).drop_last() == withheld_so_far);
                assert(withheld_before + all.take(j as int).filter(withholding).push(d)
                    == withheld_so_far.push(d));
            }
            let wanted = selector_pattern.matches(device.as_str()) && match &allowed {
                Some(patterns) => matches_any(device.as_str(), patterns.as_slice()),
                None => true,
            };
            if wanted {
                if matches_any(device.as_str(), denied.as_slice()) {
                    if !contains_text(&withheld, device.as_str()) {
                        let mut warning = "CDI device ".to_owned();
                        warning.append(device.as_str());
                        warning.append(
                            " is denied by managed policy and will not be added to the sandbox",
                        );
                        let ghost warnings_before = texts(warnings@);
                        let ghost withheld_texts_before = texts(withheld@);
                        warnings.push(warning);
                        withheld.push(device.clone());
                        assert(texts(withheld@) == withheld_texts_before.push(d));
                        assert(texts(warnings@) == warnings_before.push(denied_warning(d)));
                    }
                } else {
                    served = true;
                    assert(p.grants(s, all[j as int]));
                    if !contains_text(&devices, device.as_str()) {
                        let ghost devices_before = texts(devices@);
                        devices.push(device.clone());
                        assert(texts(devices@) == devices_before.push(d));
                    }
                }
            }
        }
        proof {
            assert(all.take(available.len() as int) == all);
            assert(selectors.take(k + 1).drop_last() == selectors.take(k as int));
            assert(selectors.take(k + 1).last() == s);
            assert(selectors.skip(k as int).drop_first() == selectors.skip(k + 1));
            assert(selectors.skip(k as int)[0] == s);
        }
        if !served {
            assert(!p.serves(s, all));
            let mut reason = "CDI selector `".to_owned();
            reason.append(selector.as_str());
            reason.append("` did not match any devices allowed by policy");
            return Err(CodexErr::Fatal(reason));
        }
        assert(p.serves(s, all));
    }
    assert(selectors.take(policy.requested.len() as int) == selectors);
    assert(selectors.skip(policy.requested.len() as int) == Seq::<Seq<char>>::empty());
    Ok(FilteredCdiDevices { devices, warnings })
}

/// Who asks for an edit, in words.
pub open spec fn scope_text(scope: CdiEditScopeView) -> Seq<char> {
    match scope {
        CdiEditScopeView::Spec { kind, path } => "CDI spec "@ + kind + " at "@ + path,
        CdiEditScopeView::Device { qualified_name, .. } => "CDI device "@ + qualified_name,
    }
}

/// Describes who asks for an edit.
pub fn scope_description(scope: &CdiEditScope) -> (text: String)
    ensures
        text@ == scope_text(scope@),
{
    match scope {
        CdiEditScope::Spec { kind, path } => {
            let mut text = "CDI spec ".to_owned();
            text.append(kind.as_str());
            text.append(" at ");
            text.append(path.as_str());
            text
        },
        CdiEditScope::Device { qualified_name, .. } => {
            let mut text = "CDI device ".to_owned();
            text.append(qualified_name.as_str());
            text
        },
    }
}

/// The name of a kind of edit in a CDI spec.
pub open spec fn kind_text(kind: UnsupportedCdiEditKind) -> Seq<char> {
    match kind {
        UnsupportedCdiEditKind::Hooks => "hooks"@,
        UnsupportedCdiEditKind::NetDevices => "netDevices"@,
        UnsupportedCdiEditKind::IntelRdt => "intelRdt"@,
        UnsupportedCdiEditKind::AdditionalGids => "additionalGids"@,
    }
}

/// The name of a kind of edit in a CDI spec.
pub fn unsupported_kind_label(kind: &UnsupportedCdiEditKind) -> (label: &'static str)
    ensures
        label@ == kind_text(*kind),
{
    match kind {
        UnsupportedCdiEditKind::Hooks => "hooks",
        UnsupportedCdiEditKind::NetDevices => "netDevices",
        UnsupportedCdiEditKind::IntelRdt => "intelRdt",
        UnsupportedCdiEditKind::AdditionalGids => "additionalGids",
    }
}

/// The warning about edits without counterpart in bubblewrap.
pub open spec fn unsupported_text(unsupported: UnsupportedCdiEditView) -> Seq<char> {
    scope_text(unsupported.scope) + " requested "@ + kind_text(unsupported.kind)
        + ", which Codex cannot apply in bubblewrap; dropping "@ + kind_text(unsupported.kind)
}

/// Warns about edits without counterpart in bubblewrap.
pub fn unsupported_edit_warning(unsupported: &UnsupportedCdiEdit) -> (warning: String)
    ensures
        warning@ == unsupported_text(unsupported@),
{
    let mut warning = scope_description(&unsupported.scope);
    warning.append(" requested ");
    warning.append(unsupported_kind_label(&unsupported.kind));
    warning.append(", which Codex cannot apply in bubblewrap; dropping ");
    warning.append(unsupported_kind_label(&unsupported.kind));
    warning
}

/// Whether a path begins at the root, which makes it absolute on Linux, where bubblewrap runs.
pub open spec fn is_absolute(path: Seq<char>) -> bool {
    path.len() > 0 && path[0] == '/'
}

/// Whether `path` begins at the root.
fn starts_at_root(path: &str) -> (absolute: bool)
    ensures
        absolute == is_absolute(path@),
{
    !path.is_empty() && path.get_char(0) == '/'
}

/// Why bubblewrap cannot provide a device node as asked, where it cannot: the paths have to be
/// absolute, the access unrestricted, the node a device, and its owner and mode those of the host.
pub open spec fn device_objection(device: ResolvedCdiDeviceNodeView) -> Option<Seq<char>> {
    let who = scope_text(device.scope);
    if !is_absolute(device.host_path) || !is_absolute(device.container_path) {
        Some(
            who + " requested device node "@ + device.container_path + " from "@ + device.host_path
                + ", but Codex only supports absolute device paths in bubblewrap; dropping device node"@,
        )
    } else if device.permissions is Some && device.permissions->0.len() > 0
        && device.permissions->0 != "rwm"@ {
        Some(
            who + " requested device node "@ + device.container_path + " with permissions `"@
                + device.permissions->0
                + "`, which Codex cannot apply in bubblewrap; dropping device node"@,
        )
    } else if device.typ is Some && !(device.typ->0 == "c"@ || device.typ->0 == "b"@
        || device.typ->0 == "u"@) {
        Some(
            who + " requested non-device node "@ + device.container_path + " with type `"@
                + device.typ->0
                + "`, which Codex cannot apply in bubblewrap; dropping device node"@,
        )
    } else if device.uid is Some || device.gid is Some || device.file_mode is Some {
        Some(
            who + " requested ownership or mode changes for device node "@ + device.container_path
                + ", which Codex cannot apply in bubblewrap; dropping device node"@,
        )
    } else {
        None
    }
}

/// Warns about a device node that bubblewrap cannot provide as asked.
pub fn unsupported_device_warning(device: &ResolvedCdiDeviceNode) -> (warning: Option<String>)
    ensures
        optional_text(warning) == device_objection(device@),
{
    if !starts_at_root(device.host_path.as_str()) || !starts_at_root(
        device.container_path.as_str(),
    ) {
        let mut warning = scope_description(&device.scope);
        warning.append(" requested device node ");
        warning.append(device.container_path.as_str());
        warning.append(" from ");
        warning.append(device.host_path.as_str());
        warning.append(
            ", but Codex only supports absolute device paths in bubblewrap; dropping device node",
        );
        return Some(warning);
    }
    if let Some(permissions) = &device.permissions {
        if !permissions.as_str().is_empty() && !same_text(permissions.as_str(), "rwm") {
            let mut warning = scope_description(&device.scope);
            warning.append(" requested device node ");
            warning.append(device.container_path.as_str());
            warning.append(" with permissions `");
            warning.append(permissions.as_str());
            warning.append("`, which Codex cannot apply in bubblewrap; dropping device node");
            return Some(warning);
        }
    }
    if let Some(typ) = &device.typ {
        if !(same_text(typ.as_str(), "c") || same_text(typ.as_str(), "b") || same_text(
            typ.as_str(),
            "u",
        )) {
            let mut warning = scope_description(&device.scope);
            warning.append(" requested non-device node ");
            warning.append(device.container_path.as_str());
            warning.append(" with type `");
            warning.append(typ.as_str());
            warning.append("`, which Codex cannot apply in bubblewrap; dropping device node");
            return Some(warning);
        }
    }
    if device.uid.is_some() || device.gid.is_some() || device.file_mode.is_some() {
        let mut warning = scope_description(&device.scope);
        warning.append(" requested ownership or mode changes for device node ");
        warning.append(device.container_path.as_str());
        warning.append(", which Codex cannot apply in bubblewrap; dropping device node");
        return Some(warning);
    }
    None
}

/// Whether bubblewrap can apply a mount option.
pub open spec fn is_supported_option(option: Seq<char>) -> bool {
    option == "bind"@ || option == "rbind"@ || option == "ro"@
}

/// The different mount options that bubblewrap cannot apply, in ascending order.
pub open spec fn unsupported_options(options: Seq<Seq<char>>) -> Seq<Seq<char>> {
    sorted_distinct(options.filter(|option: Seq<char>| !is_supported_option(option)))
}

/// The bind mount that bubblewrap makes of a mount, or why it can make none: the paths have to be
/// absolute, the mount a bind mount, and its options among those that bubblewrap can apply.
pub open spec fn mount_outcome(mount: ResolvedCdiMountView) -> Result<
    BwrapCdiMountView,
    Seq<char>,
> {
    let who = scope_text(mount.scope);
    if !is_absolute(mount.host_path) || !is_absolute(mount.container_path) {
        Err(
            who + " requested mount "@ + mount.container_path + " from "@ + mount.host_path
                + ", but Codex only supports absolute mount paths in bubblewrap; dropping mount"@,
        )
    } else if mount.typ is Some && mount.typ->0.len() > 0 && !(mount.typ->0 == "bind"@
        || mount.typ->0 == "none"@) {
        Err(
            who + " requested mount "@ + mount.container_path + " with type `"@ + mount.typ->0
                + "`, which Codex cannot apply in bubblewrap; dropping mount"@,
        )
    } else if mount.options.len() > 0 && !mount.options.contains("bind"@)
        && !mount.options.contains("rbind"@) {
        Err(
            who + " requested mount "@ + mount.container_path
                + " without bind or rbind semantics, which Codex cannot apply in bubblewrap; dropping mount"@,
        )
    } else if unsupported_options(mount.options).len() > 0 {
        Err(
            who + " requested mount "@ + mount.container_path + " with unsupported options `"@
                + joined(unsupported_options(mount.options), ","@)
                + "`, which Codex cannot apply in bubblewrap; dropping mount"@,
        )
    } else {
        Ok(
            BwrapCdiMountView {
                host_path: mount.host_path,
                container_path: mount.container_path,
                read_only: mount.options.contains("ro"@),
            },
        )
    }
}

/// The options that bubblewrap cannot apply, as often and in the order in which they are asked for.
fn options_without_counterpart(options: &Vec<String>) -> (rest: Vec<String>)
    ensures
        texts(rest@) == texts(options@).filter(
            |option: Seq<char>| !is_supported_option(option),
        ),
{
    let mut rest: Vec<String> = Vec::new();
    let ghost all = texts(options@);
    let ghost unsupported = |option: Seq<char>| !is_supported_option(option);
    assert(texts(rest@) == all.take(0).filter(unsupported));
    for i in 0..options.len()
        invariant
            all == texts(options@),
            unsupported == (|option: Seq<char>| !is_supported_option(option)),
            texts(rest@) == all.take(i as int).filter(unsupported),
    {
        let option = options[i].as_str();
        proof {
            assert(all.take(i + 1) == all.take(i as int).push(all[i as int]));
            all.take(i as int).lemma_filter_push(all[i as int], unsupported);
        }
        if !(same_text(option, "bind") || same_text(option, "rbind") || same_text(option, "ro")) {
            let ghost before = rest@;
            rest.push(options[i].clone());
            assert(texts(rest@) == texts(before).push(all[i as int]));
        }
    }
    assert(all.take(options.len() as int) == all);
    rest
}

/// Makes a bind mount of a mount that a CDI spec asks for, or says why there can be none.
pub fn translate_mount(mount: &ResolvedCdiMount) -> (result: Result<Option<BwrapCdiMount>, String>)
    ensures
        match result {
            Ok(translated) => translated is Some && mount_outcome(mount@) == Ok::<
                BwrapCdiMountView,
                Seq<char>,
            >(translated->0@),
            Err(warning) => mount_outcome(mount@) == Err::<BwrapCdiMountView, Seq<char>>(warning@),
        },
{
    if !starts_at_root(mount.host_path.as_str()) || !starts_at_root(mount.container_path.as_str()) {
        let mut warning = scope_description(&mount.scope);
        warning.append(" requested mount ");
        warning.append(mount.container_path.as_str());
        warning.append(" from ");
        warning.append(mount.host_path.as_str());
        warning.append(
            ", but Codex only supports absolute mount paths in bubblewrap; dropping mount",
        );
        return Err(warning);
    }
    if let Some(typ) = &mount.typ {
        if !typ.as_str().is_empty() && !(same_text(typ.as_str(), "bind") || same_text(
            typ.as_str(),
            "none",
        )) {
            let mut warning = scope_description(&mount.scope);
            warning.append(" requested mount ");
            warning.append(mount.container_path.as_str());
            warning.append(" with type `");
            warning.append(typ.as_str());
            warning.append("`, which Codex cannot apply in bubblewrap; dropping mount");
            return Err(warning);
        }
    }
    let bind_mount = mount.options.len() == 0 || contains_text(&mount.options, "bind")
        || contains_text(&mount.options, "rbind");
    if !bind_mount {
        let mut warning = scope_description(&mount.scope);
        warning.append(" requested mount ");
        warning.append(mount.container_path.as_str());
        warning.append(
            " without bind or rbind semantics, which Codex cannot apply in bubblewrap; dropping mount",
        );
        return Err(warning);
    }
    let unsupported = sort_distinct(&options_without_counterpart(&mount.options));
    if unsupported.len() > 0 {
        let mut warning = scope_description(&mount.scope);
        warning.append(" requested mount ");
        warning.append(mount.container_path.as_str());
        warning.append(" with unsupported options `");
        let options = join(&unsupported, ",");
        warning.append(options.as_str());
        warning.append("`, which Codex cannot apply in bubblewrap; dropping mount");
        return Err(warning);
    }
    Ok(
        Some(
            BwrapCdiMount {
                host_path: mount.host_path.clone(),
                container_path: mount.container_path.clone(),
                read_only: contains_text(&mount.options, "ro"),
            },
        ),
    )
}

/// The variable and the value that an environment entry sets, where it sets one: the texts before
/// and after its first `=`, the first not empty.
pub open spec fn env_pair(entry: Seq<char>) -> Option<(Seq<char>, Seq<char>)> {
    match split_at_first(entry, '=') {
        Some((key, value)) => if key.len() > 0 {
            Some((key, value))
        } else {
            None
        },
        None => None,
    }
}

/// The warning about an environment entry that sets no variable.
pub open spec fn env_objection(entry: Seq<char>) -> Option<Seq<char>> {
    if env_pair(entry) is Some {
        None
    } else {
        Some(
            "CDI requested malformed environment entry `"@ + entry
                + "`, which Codex cannot apply in bubblewrap; dropping env"@,
        )
    }
}

/// The device that bubblewrap provides, where it can.
pub open spec fn translated_device(device: ResolvedCdiDeviceNodeView) -> Option<
    BwrapCdiDeviceView,
> {
    if device_objection(device) is Some {
        None
    } else {
        Some(
            BwrapCdiDeviceView {
                host_path: device.host_path,
                container_path: device.container_path,
            },
        )
    }
}

/// The bind mount that bubblewrap makes, where it can.
pub open spec fn translated_mount(mount: ResolvedCdiMountView) -> Option<BwrapCdiMountView> {
    match mount_outcome(mount) {
        Ok(translated) => Some(translated),
        Err(_) => None,
    }
}

/// The warning about a mount that bubblewrap cannot make.
pub open spec fn mount_objection(mount: ResolvedCdiMountView) -> Option<Seq<char>> {
    match mount_outcome(mount) {
        Ok(_) => None,
        Err(warning) => Some(warning),
    }
}

/// What bubblewrap applies of `edits`, with a warning for each edit that it does not apply:
/// first about the environment, then about device nodes, mounts and edits without counterpart.
pub open spec fn translation(edits: ResolvedCdiEditsView) -> BwrapCdiEditsView {
    BwrapCdiEditsView {
        env: edits.env.filter_map(|entry: Seq<char>| env_pair(entry)),
        devices: edits.device_nodes.filter_map(
            |device: ResolvedCdiDeviceNodeView| translated_device(device),
        ),
        mounts: edits.mounts.filter_map(|mount: ResolvedCdiMountView| translated_mount(mount)),
        warnings: edits.env.filter_map(|entry: Seq<char>| env_objection(entry))
            + edits.device_nodes.filter_map(
            |device: ResolvedCdiDeviceNodeView| device_objection(device),
        ) + edits.mounts.filter_map(|mount: ResolvedCdiMountView| mount_objection(mount))
            + edits.unsupported.map_values(
            |unsupported: UnsupportedCdiEditView| unsupported_text(unsupported),
        ),
    }
}

/// Translates the edits of CDI devices to what bubblewrap can apply.
pub fn translate_resolved_edits(edits: ResolvedCdiEdits) -> (result: Result<
    BwrapCdiEdits,
    CodexErr,
>)
    ensures
        result is Ok,
        result->Ok_0@ == translation(edits@),
{
    let mut bwrap = BwrapCdiEdits::default();

    let ghost entries = texts(edits.env@);
    let ghost to_pair = |entry: Seq<char>| env_pair(entry);
    let ghost to_env_warning = |entry: Seq<char>| env_objection(entry);
    assert(entries.take(0).filter_map(to_pair) == Seq::<(Seq<char>, Seq<char>)>::empty());
    assert(entries.take(0).filter_map(to_env_warning) == Seq::<Seq<char>>::empty());
    for i in 0..edits.env.len()
        invariant
            entries == texts(edits.env@),
            to_pair == (|entry: Seq<char>| env_pair(entry)),
            to_env_warning == (|entry: Seq<char>| env_objection(entry)),
            bwrap@ == (BwrapCdiEditsView {
                env: entries.take(i as int).filter_map(to_pair),
                warnings: entries.take(i as int).filter_map(to_env_warning),
                ..no_bwrap_edits()
            }),
    {
        let ghost before = bwrap;
        let entry = &edits.env[i];
        proof {
            entries.lemma_filter_map_take_succ(to_pair, i as int);
            entries.lemma_filter_map_take_succ(to_env_warning, i as int);
        }
        match split_once(entry.as_str(), '=') {
            Some((key, value)) if !key.as_str().is_empty() => {
                bwrap.env.push((key, value));
                assert(pair_texts(bwrap.env@) == pair_texts(before.env@) + seq![(key@, value@)]);
            },
            _ => {
                let mut warning = "CDI requested malformed environment entry `".to_owned();
                warning.append(entry.as_str());
                warning.append("`, which Codex cannot apply in bubblewrap; dropping env");
                bwrap.warnings.push(warning);
                assert(texts(bwrap.warnings@) == texts(before.warnings@) + seq![warning@]);
            },
        }
    }
    assert(entries.take(edits.env.len() as int) == entries);

    let ghost env_pairs = bwrap@.env;
    let ghost env_warnings = bwrap@.warnings;
    let ghost nodes = views(edits.device_nodes@);
    let ghost to_device = |device: ResolvedCdiDeviceNodeView| translated_device(device);
    let ghost to_device_warning = |device: ResolvedCdiDeviceNodeView| device_objection(device);
    assert(nodes.take(0).filter_map(to_device) == Seq::<BwrapCdiDeviceView>::empty());
    assert(env_warnings + nodes.take(0).filter_map(to_device_warning) == env_warnings);
    for i in 0..edits.device_nodes.len()
        invariant
            nodes == views(edits.device_nodes@),
            to_device == (|device: ResolvedCdiDeviceNodeView| translated_device(device)),
            to_device_warning == (|device: ResolvedCdiDeviceNodeView| device_objection(device)),
            bwrap@ == (BwrapCdiEditsView {
                env: env_pairs,
                devices: nodes.take(i as int).filter_map(to_device),
                mounts: Seq::empty(),
                warnings: env_warnings + nodes.take(i as int).filter_map(to_device_warning),
            }),
    {
        let ghost before = bwrap;
        let device = &edits.device_nodes[i];
        proof {
            nodes.lemma_filter_map_take_succ(to_device, i as int);
            nodes.lemma_filter_map_take_succ(to_device_warning, i as int);
        }
        match unsupported_device_warning(device) {
            Some(warning) => {
                bwrap.warnings.push(warning);
                assert(texts(bwrap.warnings@) == texts(before.warnings@) + seq![warning@]);
            },
            None => {
                let translated = BwrapCdiDevice {
                    host_path: device.host_path.clone(),
                    container_path: device.container_path.clone(),
                };
                bwrap.devices.push(translated);
                assert(views(bwrap.devices@) == views(before.devices@) + seq![translated@]);
            },
        }
    }
    assert(nodes.take(edits.device_nodes.len() as int) == nodes);

    let ghost devices = bwrap@.devices;
    let ghost device_warnings = bwrap@.warnings;
    let ghost mounts = views(edits.mounts@);
    let ghost to_mount = |mount: ResolvedCdiMountView| translated_mount(mount);
    let ghost to_mount_warning = |mount: ResolvedCdiMountView| mount_objection(mount);
    assert(mounts.take(0).filter_map(to_mount) == Seq::<BwrapCdiMountView>::empty());
    assert(device_warnings + mounts.take(0).filter_map(to_mount_warning) == device_warnings);
    for i in 0..edits.mounts.len()
        invariant
            mounts == views(edits.mounts@),
            to_mount == (|mount: ResolvedCdiMountView| translated_mount(mount)),
            to_mount_warning == (|mount: ResolvedCdiMountView| mount_objection(mount)),
            bwrap@ == (BwrapCdiEditsView {
                env: env_pairs,
                devices,
                mounts: mounts.take(i as int).filter_map(to_mount),
                warnings: device_warnings + mounts.take(i as int).filter_map(to_mount_warning),
            }),
    {
        let ghost before = bwrap;
        proof {
            mounts.lemma_filter_map_take_succ(to_mount, i as int);
            mounts.lemma_filter_map_take_succ(to_mount_warning, i as int);
        }
        match translate_mount(&edits.mounts[i]) {
            Ok(Some(translated)) => {
                bwrap.mounts.push(translated);
                assert(views(bwrap.mounts@) == views(before.mounts@) + seq![translated@]);
            },
            Ok(None) => {},
            Err(warning) => {
                bwrap.warnings.push(warning);
                assert(texts(bwrap.warnings@) == texts(before.warnings@) + seq![warning@]);
            },
        }
    }
    assert(mounts.take(edits.mounts.len() as int) == mounts);

    let ghost mount_warnings = bwrap@.warnings;
    let ghost translated_mounts = bwrap@.mounts;
    let ghost rest = views(edits.unsupported@);
    let ghost to_warning = |unsupported: UnsupportedCdiEditView| unsupported_text(unsupported);
    assert(mount_warnings + rest.take(0).map_values(to_warning) == mount_warnings);
    for i in 0..edits.unsupported.len()
        invariant
            rest == views(edits.unsupported@),
            to_warning == (|unsupported: UnsupportedCdiEditView| unsupported_text(unsupported)),
            bwrap@ == (BwrapCdiEditsView {
                env: env_pairs,
                devices,
                mounts: translated_mounts,
                warnings: mount_warnings + rest.take(i as int).map_values(to_warning),
            }),
    {
        let ghost before = bwrap;
        let warning = unsupported_edit_warning(&edits.unsupported[i]);
        bwrap.warnings.push(warning);
        assert(texts(bwrap.warnings@) == texts(before.warnings@).push(warning@));
        assert(rest.take(i + 1).map_values(to_warning) == rest.take(i as int).map_values(
            to_warning,
        ).push(to_warning(rest[i as int])));
    }
    assert(rest.take(edits.unsupported.len() as int) == rest);

    Ok(bwrap)
}

/// What a launch under `policy` gets of the `available` devices, of which the cache said `found`,
/// or why there is none.
pub open spec fn launch_outcome(
    policy: CdiPolicyView,
    available: Seq<Seq<char>>,
    found: Seq<Option<CdiDeviceView>>,
) -> Result<BwrapCdiEditsView, Seq<char>> {
    match policy.outcome(available) {
        Err(reason) => Err(reason),
        Ok(filtered) => match resolution(filtered.devices, found) {
            Err(reason) => Err("failed to resolve CDI devices for sandbox: "@ + reason),
            Ok(edits) => Ok(
                BwrapCdiEditsView {
                    warnings: filtered.warnings + translation(edits).warnings,
                    ..translation(edits)
                },
            ),
        },
    }
}

/// Decides what bubblewrap does for the CDI devices that `policy` asks for. `available` names the
/// devices that the CDI cache knows, and `found` holds what it knows of each device that
/// [`expand_and_filter_devices`] lets through, in their order.
pub fn resolve_cdi_for_bwrap(
    available: &[String],
    policy: &RuntimeCdiPolicy,
    found: &[Option<CdiDevice>],
) -> (result: Result<BwrapCdiEdits, CodexErr>)
    ensures
        result_view(result) == launch_outcome(
            policy@,
            texts(available@),
            found_views(found@),
        ),
{
    let filtered = match expand_and_filter_devices(available, policy) {
        Ok(filtered) => filtered,
        Err(error) => {
            return Err(error);
        },
    };
    let resolved = match resolve_cdi_edits(filtered.devices.as_slice(), found) {
        Ok(resolved) => resolved,
        Err(error) => {
            let mut reason = "failed to resolve CDI devices for sandbox: ".to_owned();
            reason.append(error.as_str());
            return Err(CodexErr::Fatal(reason));
        },
    };
    let mut bwrap = match translate_resolved_edits(resolved) {
        Ok(bwrap) => bwrap,
        Err(error) => {
            return Err(error);
        },
    };
    let mut warnings = filtered.warnings;
    let ghost first = warnings@;
    let ghost second = bwrap.warnings@;
    warnings.append(&mut bwrap.warnings);
    assert(texts(warnings@) == texts(first) + texts(second));
    bwrap.warnings = warnings;
    Ok(bwrap)
}

/// The CDI part of a permission profile.
#[derive(Debug, Clone, PartialEq, Eq)]
pub struct CdiPermissions {
    /// The selectors of the devices that the profile asks for.
    pub devices: Vec<String>,
    /// Patterns of the devices that may be used, where not every device may.
    pub allowed_devices: Option<Vec<String>>,
    /// Patterns of the devices that may not be used.
    pub denied_devices: Vec<String>,
}

impl CdiPermissions {
    /// The policy that the permissions amount to.
    pub open spec fn policy(self) -> CdiPolicyView {
        CdiPolicyView {
            requested: texts(self.devices@),
            allowed: match self.allowed_devices {
                Some(allowed) => Some(texts(allowed@)),
                None => None,
            },
            denied: texts(self.denied_devices@),
        }
    }
}

impl RuntimeCdiPolicy {
    /// The policy of a permission profile with the CDI permissions `cdi`; a profile without them
    /// has none.
    pub fn from_permission_profile(cdi: Option<&CdiPermissions>) -> (policy: Option<Self>)
        ensures
            policy is Some == cdi is Some,
            policy matches Some(policy) ==> policy@ == cdi->0.policy(),
            policy matches Some(policy) ==> {
                &&& policy.requested@ == cdi->0.devices@
                &&& policy.denied@ == cdi->0.denied_devices@
                &&& policy.allowed is Some <==> cdi->0.allowed_devices is Some
                &&& policy.allowed matches Some(allowed) ==> allowed@
                    == cdi->0.allowed_devices->0@
            },
    {
        match cdi {
            Some(cdi) => {
                let allowed = match &cdi.allowed_devices {
                    Some(allowed) => Some(copy_texts(allowed)),
                    None => None,
                };
                Some(
                    RuntimeCdiPolicy {
                        requested: copy_texts(&cdi.devices),
                        allowed,
                        denied: copy_texts(&cdi.denied_devices),
                    },
                )
            },
            None => None,
        }
    }
}

} // verus!
