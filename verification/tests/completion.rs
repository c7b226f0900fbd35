use ntoseye::error::Error;
use ntoseye::gdb::breakpoints::BreakpointManager;
use ntoseye::repl::completion::{CompletionStrategy, ReplCaches};
use ntoseye::target::ProcessInfo;
use ntoseye::types::VirtAddr;

fn caches() -> ReplCaches<u32, u8, &'static str> {
    ReplCaches {
        symbols: 1,
        types: 2,
        dtb: 0x1000,
        processes: vec![("System".to_string(), 4)],
        threads: vec![1, 2],
        vcpus: vec!["p1.1".to_string()],
        breakpoints: Vec::new(),
        drivers: vec!["disk"],
        registers: vec!["rax".to_string(), "rbx".to_string()],
        expression_variables: Vec::new(),
        user_commands: Vec::new(),
        aliases: Vec::new(),
    }
}

#[test]
fn strategies_go_by_their_names() {
    for (name, strategy) in [
        ("none", CompletionStrategy::Nothing),
        ("", CompletionStrategy::Nothing),
        ("symbol", CompletionStrategy::Symbol),
        ("expression", CompletionStrategy::Expression),
        ("type", CompletionStrategy::Type),
        ("process", CompletionStrategy::Process),
        ("thread", CompletionStrategy::Thread),
        ("vcpu", CompletionStrategy::Vcpu),
        ("breakpoint", CompletionStrategy::Breakpoint),
        ("driver", CompletionStrategy::Driver),
        ("alias", CompletionStrategy::Alias),
    ] {
        assert_eq!(CompletionStrategy::from_kebab(name), Some(strategy));
    }
    for name in ["None", "symbols", " symbol"] {
        assert_eq!(CompletionStrategy::from_kebab(name), None);
    }
}

#[test]
fn listings_that_fail_keep_what_was_there() {
    let mut c = caches();
    assert!(matches!(c.refresh_processes(Err(Error::NotSupported)), Err(Error::NotSupported)));
    c.refresh_vcpus(Err(Error::NotSupported));
    c.refresh_drivers(Err(Error::NotSupported));
    assert_eq!(c.processes, vec![("System".to_string(), 4)]);
    assert_eq!(c.vcpus, vec!["p1.1"]);
    assert_eq!(c.drivers, vec!["disk"]);
    c.refresh_processes(Ok(vec![
        ProcessInfo { pid: 8, name: "a".to_string(), dtb: 1 },
        ProcessInfo { pid: 12, name: "b".to_string(), dtb: 2 },
    ]))
    .unwrap();
    c.refresh_vcpus(Ok(vec!["p1.2".to_string()]));
    c.refresh_drivers(Ok(vec!["ntfs", "tcpip"]));
    assert_eq!(c.processes, vec![("a".to_string(), 8), ("b".to_string(), 12)]);
    assert_eq!(c.vcpus, vec!["p1.2"]);
    assert_eq!(c.drivers, vec!["ntfs", "tcpip"]);
    c.clear_threads();
    assert!(c.threads.is_empty());
}

#[test]
fn listings_that_fail_after_a_reload_leave_nothing() {
    let mut c = caches();
    c.reset_processes(Ok(vec![ProcessInfo { pid: 8, name: "a".to_string(), dtb: 1 }])).unwrap();
    c.reset_vcpus(Ok(vec!["p1.2".to_string()]));
    c.reset_drivers(Ok(vec!["ntfs"]));
    assert_eq!(c.processes, vec![("a".to_string(), 8)]);
    assert_eq!(c.vcpus, vec!["p1.2"]);
    assert_eq!(c.drivers, vec!["ntfs"]);
    assert!(matches!(c.reset_processes(Err(Error::NotSupported)), Err(Error::NotSupported)));
    c.reset_vcpus(Err(Error::NotSupported));
    c.reset_drivers(Err(Error::NotSupported));
    assert!(c.processes.is_empty() && c.vcpus.is_empty() && c.drivers.is_empty());
    assert_eq!((c.threads.len(), c.registers.len()), (2, 2));
}

#[test]
fn what_is_forgotten_is_gone() {
    let mut c = caches();
    c.breakpoints = vec![(1, true, VirtAddr(0x10), None)];
    c.forget_breakpoints();
    assert!(c.breakpoints.is_empty());
    assert_eq!((c.processes.len(), c.drivers.len()), (1, 1));
    c.forget_processes();
    assert!(c.processes.is_empty());
    assert_eq!(c.drivers.len(), 1);
    c.forget_drivers();
    assert!(c.drivers.is_empty());
    assert_eq!(c.vcpus.len(), 1);
}

#[test]
fn breakpoints_are_listed_by_id() {
    let mut manager: BreakpointManager<()> = BreakpointManager::new();
    manager.insert_for_test(4, VirtAddr(0x40), false, None);
    manager.insert_for_test(2, VirtAddr(0x20), true, None);
    manager.breakpoints.get_mut(&2).unwrap().symbol = Some("nt!Foo".to_string());
    let mut c = caches();
    // Nothing is left of what was there before.
    c.breakpoints = vec![
        (9, true, VirtAddr(0x90), Some("gone".to_string())),
        (4, true, VirtAddr(0x41), None),
        (1, false, VirtAddr(0x10), None),
    ];
    c.refresh_breakpoints(&manager);
    assert_eq!((c.processes.len(), c.drivers.len(), c.threads.len()), (1, 1, 2));
    assert_eq!(
        c.breakpoints,
        vec![
            (2, true, VirtAddr(0x20), Some("nt!Foo".to_string())),
            (4, false, VirtAddr(0x40), None),
        ]
    );
}

#[test]
fn indexes_are_rebuilt_only_where_the_context_moved() {
    let mut c = caches();
    c.refresh_symbol_context(0x1000, || panic!("nothing moved"), || panic!("nothing moved"));
    assert_eq!((c.symbols, c.types, c.dtb), (1, 2, 0x1000));
    c.refresh_symbol_context(0x2000, || 3, || 4);
    assert_eq!((c.symbols, c.types, c.dtb), (3, 4, 0x2000));
    c.refresh_symbol_context(0x2000, || panic!("nothing moved"), || panic!("nothing moved"));
    assert_eq!((c.symbols, c.types, c.dtb), (3, 4, 0x2000));
}

#[test]
fn names_in_expressions_are_shown_once_and_in_order() {
    let mut c = caches();
    let user = ["zeta", "rax", "alpha", "pid"].map(|s| s.to_string());
    let builtins = ["pid", "rbx", "nt", "0"].map(|s| s.to_string());
    c.refresh_expression_context(&user, 11, &builtins);
    let shown: Vec<(&str, &str)> =
        c.expression_variables.iter().map(|(n, k)| (n.as_str(), *k)).collect();
    assert_eq!(
        shown,
        vec![
            ("0", "Result"),
            ("1", "Result"),
            ("10", "Result"),
            ("2", "Result"),
            ("3", "Result"),
            ("4", "Result"),
            ("5", "Result"),
            ("6", "Result"),
            ("7", "Result"),
            ("8", "Result"),
            ("9", "Result"),
            ("alpha", "Variable"),
            ("nt", "Builtin"),
            ("pid", "Variable"),
            ("rbx", "Builtin"),
            ("zeta", "Variable"),
        ]
    );
    c.refresh_expression_context(&[], 0, &[]);
    assert!(c.expression_variables.is_empty());
}
