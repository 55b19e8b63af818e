//! Installation of a plugin.
//!
//! When the host loads a plugin it calls the plugin's entry point once. The
//! entry point reads the arguments, runs every setup callback, and then
//! binds every static callback to its hook. What has to happen, and in what
//! order, is decided here; running the callbacks and calling the host's
//! registrars is the caller's.

use crate::args::{parsed_args, texts, Args};
use crate::callbacks::{Register, Registration, StaticCallbackType};
use vstd::prelude::*;

verus! {

/// What the entry point returns to the host when the plugin is installed.
pub const PLUGIN_INSTALL_SUCCESS: i32 = 0;

/// What the entry point returns to the host when the plugin cannot be
/// installed.
pub const PLUGIN_INSTALL_FAILURE: i32 = 1;

/// One thing to do during installation.
#[derive(Clone, Copy, Debug, PartialEq, Eq, Structural)]
pub enum InstallStep {
    /// Run the setup callback with this index.
    RunSetup(usize),
    /// Bind the static callback with this index through this request.
    Register(usize, Registration),
}

/// What installation does for `setups` setup callbacks and the static
/// callbacks `statics` of the plugin `id`: every setup callback, in the
/// order of their indices, and after all of them every static callback,
/// each with the registrar of its own hook.
pub open spec fn install_steps(id: u64, setups: nat, statics: Seq<StaticCallbackType>) -> Seq<
    InstallStep,
> {
    Seq::new(
        setups + statics.len(),
        |i: int|
            if i < setups {
                InstallStep::RunSetup(i as usize)
            } else {
                InstallStep::Register(
                    (i - setups) as usize,
                    Registration { hook: statics[i - setups], id },
                )
            },
    )
}

/// The steps of an installation.
pub fn install_plan(id: u64, setups: usize, statics: &Vec<StaticCallbackType>) -> (r: Vec<
    InstallStep,
>)
    ensures
        r@ == install_steps(id, setups as nat, statics@),
{
    let mut steps: Vec<InstallStep> = Vec::new();
    let mut i: usize = 0;
    while i < setups
        invariant
            i <= setups,
            steps@.len() == i,
            forall|j: int| 0 <= j < i ==> steps@[j] == InstallStep::RunSetup(j as usize),
        decreases setups - i,
    {
        steps.push(InstallStep::RunSetup(i));
        i += 1;
    }
    let mut k: usize = 0;
    while k < statics.len()
        invariant
            k <= statics@.len(),
            steps@.len() == setups + k,
            forall|j: int| 0 <= j < setups ==> steps@[j] == InstallStep::RunSetup(j as usize),
            forall|j: int|
                0 <= j < k ==> steps@[setups + j] == InstallStep::Register(
                    j as usize,
                    Registration { hook: statics@[j], id },
                ),
        decreases statics@.len() - k,
    {
        let request = statics[k].register(id);
        steps.push(InstallStep::Register(k, request));
        k += 1;
    }
    assert(steps@ =~= install_steps(id, setups as nat, statics@));
    steps
}

/// What the entry point of a plugin comes to.
pub struct Installation {
    /// The value to return to the host.
    pub status: i32,
    /// The arguments of the plugin.
    pub args: Args,
    /// What to do before returning, in this order.
    pub steps: Vec<InstallStep>,
}

/// The entry point of a plugin, as far as it decides anything. The host
/// hands over the plugin's number, its description of the emulation and the
/// arguments. Without a description the plugin cannot be installed: nothing
/// is run or registered, and the host is told so. Otherwise the arguments
/// are read and the steps are those of `install_steps`.
pub fn qemu_plugin_install(
    id: u64,
    has_info: bool,
    raw_args: Vec<String>,
    setups: usize,
    statics: &Vec<StaticCallbackType>,
) -> (r: Installation)
    ensures
        r.args.raw == raw_args,
        r.args@ == parsed_args(texts(raw_args@)),
        r.status == (if has_info {
            PLUGIN_INSTALL_SUCCESS
        } else {
            PLUGIN_INSTALL_FAILURE
        }),
        r.steps@ == (if has_info {
            install_steps(id, setups as nat, statics@)
        } else {
            Seq::<InstallStep>::empty()
        }),
{
    let args = Args::new(raw_args);
    if has_info {
        let steps = install_plan(id, setups, statics);
        Installation { status: PLUGIN_INSTALL_SUCCESS, args, steps }
    } else {
        Installation { status: PLUGIN_INSTALL_FAILURE, args, steps: Vec::new() }
    }
}

/// What the entry point returns once the steps were taken: success where
/// the host accepted every registration, failure otherwise.
pub fn install_status(all_registered: bool) -> (r: i32)
    ensures
        r == (if all_registered {
            PLUGIN_INSTALL_SUCCESS
        } else {
            PLUGIN_INSTALL_FAILURE
        }),
{
    if all_registered {
        PLUGIN_INSTALL_SUCCESS
    } else {
        PLUGIN_INSTALL_FAILURE
    }
}

/// Every setup callback runs before any static callback is bound, and
/// every callback gets exactly one step.
pub proof fn lemma_setup_before_registration(
    id: u64,
    setups: nat,
    statics: Seq<StaticCallbackType>,
    i: int,
    j: int,
)
    requires
        0 <= i < setups + statics.len(),
        0 <= j < setups + statics.len(),
        install_steps(id, setups, statics)[i] is RunSetup,
        install_steps(id, setups, statics)[j] is Register,
    ensures
        i < j,
        install_steps(id, setups, statics)[i] == InstallStep::RunSetup(i as usize),
        install_steps(id, setups, statics)[j] == InstallStep::Register(
            (j - setups) as usize,
            Registration { hook: statics[j - setups], id },
        ),
{
}

} // verus!
