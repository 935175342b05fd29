//! What bubblewrap is told to do for CDI devices.

use vstd::prelude::*;

use crate::model::views;
use crate::text::texts;

verus! {

/// A device node of the host that appears in the sandbox.
#[derive(Debug, Clone, PartialEq, Eq)]
pub struct BwrapCdiDevice {
    pub host_path: String,
    pub container_path: String,
}

/// The texts of a [`BwrapCdiDevice`].
pub struct BwrapCdiDeviceView {
    pub host_path: Seq<char>,
    pub container_path: Seq<char>,
}

impl View for BwrapCdiDevice {
    type V = BwrapCdiDeviceView;

    open spec fn view(&self) -> BwrapCdiDeviceView {
        BwrapCdiDeviceView { host_path: self.host_path@, container_path: self.container_path@ }
    }
}

/// A path of the host that is bound into the sandbox.
#[derive(Debug, Clone, PartialEq, Eq)]
pub struct BwrapCdiMount {
    pub host_path: String,
    pub container_path: String,
    pub read_only: bool,
}

/// The content of a [`BwrapCdiMount`].
pub struct BwrapCdiMountView {
    pub host_path: Seq<char>,
    pub container_path: Seq<char>,
    pub read_only: bool,
}

impl View for BwrapCdiMount {
    type V = BwrapCdiMountView;

    open spec fn view(&self) -> BwrapCdiMountView {
        BwrapCdiMountView {
            host_path: self.host_path@,
            container_path: self.container_path@,
            read_only: self.read_only,
        }
    }
}

/// Everything that CDI devices change in a sandbox, and what has to be said about the rest.
#[derive(Debug, Clone, PartialEq, Eq)]
pub struct BwrapCdiEdits {
    pub env: Vec<(String, String)>,
    pub devices: Vec<BwrapCdiDevice>,
    pub mounts: Vec<BwrapCdiMount>,
    pub warnings: Vec<String>,
}

/// The content of a [`BwrapCdiEdits`].
#[verifier::ext_equal]
pub struct BwrapCdiEditsView {
    pub env: Seq<(Seq<char>, Seq<char>)>,
    pub devices: Seq<BwrapCdiDeviceView>,
    pub mounts: Seq<BwrapCdiMountView>,
    pub warnings: Seq<Seq<char>>,
}

/// The texts of each pair.
pub open spec fn pair_texts(pairs: Seq<(String, String)>) -> Seq<(Seq<char>, Seq<char>)> {
    pairs.map_values(|pair: (String, String)| (pair.0@, pair.1@))
}

impl View for BwrapCdiEdits {
    type V = BwrapCdiEditsView;

    open spec fn view(&self) -> BwrapCdiEditsView {
        BwrapCdiEditsView {
            env: pair_texts(self.env@),
            devices: views(self.devices@),
            mounts: views(self.mounts@),
            warnings: texts(self.warnings@),
        }
    }
}

/// No change to the sandbox.
pub open spec fn no_bwrap_edits() -> BwrapCdiEditsView {
    BwrapCdiEditsView {
        env: Seq::empty(),
        devices: Seq::empty(),
        mounts: Seq::empty(),
        warnings: Seq::empty(),
    }
}

impl Default for BwrapCdiEdits {
    fn default() -> (edits: BwrapCdiEdits)
        ensures
            edits@ == no_bwrap_edits(),
    {
        BwrapCdiEdits {
            env: Vec::new(),
            devices: Vec::new(),
            mounts: Vec::new(),
            warnings: Vec::new(),
        }
    }
}

} // verus!
