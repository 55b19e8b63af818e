use cannonball::callbacks::{
    AtExitCallback, AtExitData, CallbackFlags, DynamicCallbackType, DynamicRegistration,
    FlushCallback, MemAccessKind, Register, RegisterInsnExec, RegisterTBExec, Registration,
    SetupCallback, SetupCallbackType, StaticCallbackType, VCPUExitCallback, VCPUIdleCallback,
    VCPUInitCallback, VCPUInsnExecCallback, VCPUMemCallback, VCPUResumeCallback,
    VCPUSyscallCallback, VCPUSyscallRetCallback, VCPUTBExecCallback, VCPUTBTransCallback,
};
use cannonball::args::QEMUArg;
use cannonball::install::{
    install_plan, install_status, qemu_plugin_install, InstallStep, PLUGIN_INSTALL_FAILURE,
    PLUGIN_INSTALL_SUCCESS,
};

fn on_vcpu(_id: u64, _vcpu: u32) {}
fn on_tb(_id: u64, _tb: usize) {}
fn on_syscall(_id: u64, _vcpu: u32, _num: i64, _args: [u64; 8]) {}
fn on_syscall_ret(_id: u64, _vcpu: u32, _num: i64, _rv: i64) {}
fn on_exit(_id: u64, _data: u64) {}
fn on_flush(_id: u64) {}
fn on_exec(_vcpu: u32, _data: u64) {}
fn on_mem(_vcpu: u32, _info: u32, _vaddr: u64, _data: u64) {}

#[test]
fn static_callbacks_register_with_their_own_hook() {
    let id = 42;
    let want = |hook| Registration { hook, id };
    assert_eq!(VCPUInitCallback::new(on_vcpu).register(id), want(StaticCallbackType::VCPUInit));
    assert_eq!(VCPUExitCallback::new(on_vcpu).register(id), want(StaticCallbackType::VCPUExit));
    assert_eq!(VCPUIdleCallback::new(on_vcpu).register(id), want(StaticCallbackType::VCPUIdle));
    assert_eq!(VCPUResumeCallback::new(on_vcpu).register(id), want(StaticCallbackType::VCPUResume));
    assert_eq!(VCPUTBTransCallback::new(on_tb).register(id), want(StaticCallbackType::VCPUTBTrans));
    assert_eq!(
        VCPUSyscallCallback::new(on_syscall).register(id),
        want(StaticCallbackType::VCPUSyscall)
    );
    assert_eq!(
        VCPUSyscallRetCallback::new(on_syscall_ret).register(id),
        want(StaticCallbackType::VCPUSyscallRet)
    );
    assert_eq!(
        AtExitCallback::new(on_exit, AtExitData(7)).register(id),
        want(StaticCallbackType::AtExit)
    );
    assert_eq!(FlushCallback::new(on_flush).register(id), want(StaticCallbackType::Flush));
}

#[test]
fn descriptors_keep_what_they_were_given() {
    let cb = VCPUInitCallback::new(on_vcpu as fn(u64, u32));
    assert!(cb.cb == on_vcpu as fn(u64, u32));
    let exit = AtExitCallback::new(on_exit as fn(u64, u64), AtExitData(99));
    assert_eq!(exit.data, AtExitData(99));
    let exec = VCPUInsnExecCallback::new(on_exec as fn(u32, u64), 5);
    assert_eq!(exec.data, 5);
    let setup = SetupCallback::new(|n: u32| n + 1);
    assert_eq!((setup.cb)(1), 2);
    assert_eq!(setup.kind(), SetupCallbackType::Setup);
}

#[test]
fn hook_tags_register_as_themselves() {
    let hooks = [
        StaticCallbackType::VCPUInit,
        StaticCallbackType::VCPUExit,
        StaticCallbackType::VCPUIdle,
        StaticCallbackType::VCPUResume,
        StaticCallbackType::VCPUTBTrans,
        StaticCallbackType::VCPUSyscall,
        StaticCallbackType::VCPUSyscallRet,
        StaticCallbackType::AtExit,
        StaticCallbackType::Flush,
    ];
    for (i, a) in hooks.iter().enumerate() {
        assert_eq!(a.register(3), Registration { hook: *a, id: 3 });
        for (j, b) in hooks.iter().enumerate() {
            assert_eq!(a == b, i == j);
        }
    }
}

#[test]
fn dynamic_callbacks_carry_a_word_and_no_register_state() {
    let tb = VCPUTBExecCallback::new(on_exec, 11);
    assert_eq!(
        tb.register(0x1000),
        DynamicRegistration {
            hook: DynamicCallbackType::VCPUTBExec,
            target: 0x1000,
            flags: CallbackFlags::NoRegs,
            accesses: None,
            data: 11,
        }
    );
    let insn = VCPUInsnExecCallback::new(on_exec, 12);
    assert_eq!(
        insn.register(0x2000),
        DynamicRegistration {
            hook: DynamicCallbackType::VCPUInsnExec,
            target: 0x2000,
            flags: CallbackFlags::NoRegs,
            accesses: None,
            data: 12,
        }
    );
    let mem = VCPUMemCallback::new(on_mem, u64::MAX);
    assert_eq!(
        mem.register(0x3000),
        DynamicRegistration {
            hook: DynamicCallbackType::VCPUMem,
            target: 0x3000,
            flags: CallbackFlags::NoRegs,
            accesses: Some(MemAccessKind::ReadsAndWrites),
            data: u64::MAX,
        }
    );
}

#[test]
fn install_runs_setup_before_registration() {
    let statics = vec![
        StaticCallbackType::VCPUTBTrans,
        StaticCallbackType::VCPUSyscall,
        StaticCallbackType::VCPUSyscallRet,
    ];
    let steps = install_plan(9, 2, &statics);
    assert_eq!(
        steps,
        vec![
            InstallStep::RunSetup(0),
            InstallStep::RunSetup(1),
            InstallStep::Register(0, Registration { hook: StaticCallbackType::VCPUTBTrans, id: 9 }),
            InstallStep::Register(1, Registration { hook: StaticCallbackType::VCPUSyscall, id: 9 }),
            InstallStep::Register(
                2,
                Registration { hook: StaticCallbackType::VCPUSyscallRet, id: 9 }
            ),
        ]
    );
    let last_setup = steps.iter().rposition(|s| matches!(s, InstallStep::RunSetup(_)));
    let first_reg = steps.iter().position(|s| matches!(s, InstallStep::Register(..)));
    assert!(last_setup < first_reg);
}

#[test]
fn install_with_nothing_to_do() {
    assert!(install_plan(1, 0, &Vec::new()).is_empty());
    assert_eq!(install_plan(1, 1, &Vec::new()), vec![InstallStep::RunSetup(0)]);
    assert_eq!(
        install_plan(1, 0, &vec![StaticCallbackType::Flush]),
        vec![InstallStep::Register(0, Registration { hook: StaticCallbackType::Flush, id: 1 })]
    );
}

#[test]
fn entry_point_reads_arguments_and_plans() {
    let raw: Vec<String> =
        ["plugin.so", "trace_pc=on", "n=3"].iter().map(|s| s.to_string()).collect();
    let statics = vec![StaticCallbackType::AtExit];
    let got = qemu_plugin_install(5, true, raw.clone(), 1, &statics);
    assert_eq!(got.status, PLUGIN_INSTALL_SUCCESS);
    assert_eq!(got.status, 0);
    assert_eq!(got.args.raw, raw);
    assert_eq!(got.args.get("trace_pc"), Some(&QEMUArg::Bool(true)));
    assert_eq!(got.args.get("n"), Some(&QEMUArg::Int(3)));
    assert_eq!(
        got.steps,
        vec![
            InstallStep::RunSetup(0),
            InstallStep::Register(0, Registration { hook: StaticCallbackType::AtExit, id: 5 }),
        ]
    );
}

#[test]
fn entry_point_fails_without_host_info() {
    let got = qemu_plugin_install(5, false, vec!["plugin.so".to_string()], 3, &vec![
        StaticCallbackType::Flush,
    ]);
    assert_ne!(got.status, 0);
    assert_eq!(got.status, PLUGIN_INSTALL_FAILURE);
    assert!(got.steps.is_empty());
}

#[test]
fn install_status_reports_failed_registration() {
    assert_eq!(install_status(true), 0);
    assert_ne!(install_status(false), 0);
}
