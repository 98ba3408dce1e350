use kernel_symbols::inspect::{KernelInspector, Signature};
use kernel_symbols::model::InspectError;
use kernel_symbols::symbol::{matching_functions_to_symbols, Symbol, SymbolError, Target};

const KFREE_SKB_TRACEPOINT: u64 = 0xffffffff9b2e5480;
const KFREE_SKB_REASON: u64 = 0xffffffff99d1ddf0;

fn strings(items: &[&str]) -> Vec<String> {
    items.iter().map(|s| s.to_string()).collect()
}

fn signature(name: &str, parameters: &[&str]) -> Signature {
    Signature { name: name.to_string(), parameters: strings(parameters) }
}

fn symbol_table() -> KernelInspector {
    let mut kernel = KernelInspector::new();
    assert!(kernel.add_symbol(KFREE_SKB_TRACEPOINT, "__tracepoint_kfree_skb"));
    assert!(kernel.add_symbol(KFREE_SKB_REASON, "kfree_skb_reason"));
    assert!(kernel.add_symbol(0xffffffff9b2e5500, "__tracepoint_consume_skb"));
    assert!(kernel.add_symbol(0xffffffff9b2e5600, "__tracepoint_orphan"));
    assert!(kernel.add_symbol(0xffffffff99d1e000, "consume_skb"));
    assert!(kernel.add_symbol(0xffffffff99e00000, "tcp_sendmsg"));
    assert!(kernel.add_symbol(0xffffffff99e00100, "tcp_recvmsg"));
    assert!(kernel.add_symbol(0xffffffff99e00200, "tcp_v4_rcv.isra.0"));
    assert!(kernel.add_symbol(0xffffffff99e00300, "not_listed"));
    kernel
}

fn type_information(kernel: &mut KernelInspector) {
    assert!(kernel.set_signatures(vec![
        signature(
            "btf_trace_kfree_skb",
            &["struct sk_buff *", "void *", "enum skb_drop_reason"],
        ),
        signature("kfree_skb_reason", &["struct sk_buff *", "enum skb_drop_reason"]),
    ]));
}

/// A host where everything is available.
fn kernel() -> KernelInspector {
    let mut kernel = symbol_table();
    assert!(kernel.set_traceable_events(strings(&[
        "sched:sched_switch",
        "skb:kfree_skb",
        "skb:consume_skb",
    ])));
    kernel.set_traceable_functions(strings(&[
        "kfree_skb_reason",
        "consume_skb",
        "tcp_sendmsg",
        "tcp_recvmsg",
        "tcp_v4_rcv.isra.0",
        "tcp_gone",
    ]));
    type_information(&mut kernel);
    kernel
}

/// A host with the symbol table and type information only.
fn bare_kernel() -> KernelInspector {
    let mut kernel = symbol_table();
    type_information(&mut kernel);
    kernel
}

fn not_traceable(name: &str) -> SymbolError {
    SymbolError::NotTraceable(Target::Name(name.to_string()))
}

#[test]
fn from_name() {
    let kernel = kernel();

    // First test an event.
    let symbol = Symbol::from_name("skb:kfree_skb", &kernel).unwrap();
    assert!(symbol.attach_name() == "kfree_skb");
    assert!(symbol.addr_name() == "__tracepoint_kfree_skb");
    assert!(symbol.typedef_name() == "btf_trace_kfree_skb");
    assert!(symbol.nargs(&kernel).unwrap() == 3);
    assert!(symbol.parameter_offset("struct sk_buff *", &kernel).unwrap() == Some(0));
    assert!(symbol.parameter_offset("enum skb_drop_reason", &kernel).unwrap() == Some(2));
    assert!(symbol
        .parameter_offset("struct net_device *", &kernel)
        .unwrap()
        .is_none());

    // Then a function.
    let symbol = Symbol::from_name("kfree_skb_reason", &kernel).unwrap();
    assert!(symbol.attach_name() == "kfree_skb_reason");
    assert!(symbol.addr_name() == "kfree_skb_reason");
    assert!(symbol.typedef_name() == "kfree_skb_reason");
    assert!(symbol.nargs(&kernel).unwrap() == 2);
    assert!(symbol.parameter_offset("struct sk_buff *", &kernel).unwrap() == Some(0));
    assert!(symbol.parameter_offset("enum skb_drop_reason", &kernel).unwrap() == Some(1));
    assert!(symbol
        .parameter_offset("struct net_device *", &kernel)
        .unwrap()
        .is_none());
}

#[test]
fn from_addr() {
    let kernel = kernel();

    // From an address (is an event).
    let symbol = Symbol::from_addr(0xffffffff9b2e5480, &kernel).unwrap();
    assert!(symbol.attach_name() == "kfree_skb");
    assert!(symbol.addr_name() == "__tracepoint_kfree_skb");
    assert!(symbol.typedef_name() == "btf_trace_kfree_skb");
    assert!(symbol.nargs(&kernel).unwrap() == 3);
    assert!(symbol.parameter_offset("struct sk_buff *", &kernel).unwrap() == Some(0));
    assert!(symbol.parameter_offset("enum skb_drop_reason", &kernel).unwrap() == Some(2));
    assert!(symbol
        .parameter_offset("struct net_device *", &kernel)
        .unwrap()
        .is_none());

    // From an address (is a function).
    let symbol = Symbol::from_addr(0xffffffff99d1ddf0, &kernel).unwrap();
    assert!(symbol.attach_name() == "kfree_skb_reason");
    assert!(symbol.addr_name() == "kfree_skb_reason");
    assert!(symbol.typedef_name() == "kfree_skb_reason");
    assert!(symbol.nargs(&kernel).unwrap() == 2);
    assert!(symbol.parameter_offset("struct sk_buff *", &kernel).unwrap() == Some(0));
    assert!(symbol.parameter_offset("enum skb_drop_reason", &kernel).unwrap() == Some(1));
    assert!(symbol
        .parameter_offset("struct net_device *", &kernel)
        .unwrap()
        .is_none());

    // Try two invalid address.
    assert!(Symbol::from_addr(0xffffffff9b2e5480 + 1, &kernel).is_err());
    assert!(Symbol::from_addr(0xffffffff99d1ddf0 + 1, &kernel).is_err());
}

#[test]
fn event_by_name_has_its_four_forms() {
    let kernel = kernel();
    let symbol = Symbol::from_name("skb:kfree_skb", &kernel).unwrap();
    assert_eq!(symbol, Symbol::Event("skb:kfree_skb".to_string()));
    assert!(symbol.is_well_formed());
    assert_eq!(symbol.name(), "skb:kfree_skb");
    assert_eq!(symbol.to_string(), "skb:kfree_skb");
    assert_eq!(symbol.attach_name(), "kfree_skb");
    assert_eq!(symbol.addr_name(), "__tracepoint_kfree_skb");
    assert_eq!(symbol.typedef_name(), "btf_trace_kfree_skb");
}

#[test]
fn function_by_name_has_one_form() {
    let kernel = kernel();
    let symbol = Symbol::from_name("kfree_skb_reason", &kernel).unwrap();
    assert_eq!(symbol, Symbol::Func("kfree_skb_reason".to_string()));
    assert!(symbol.is_well_formed());
    assert_eq!(symbol.name(), "kfree_skb_reason");
    assert_eq!(symbol.to_string(), "kfree_skb_reason");
    assert_eq!(symbol.attach_name(), "kfree_skb_reason");
    assert_eq!(symbol.addr_name(), "kfree_skb_reason");
    assert_eq!(symbol.typedef_name(), "kfree_skb_reason");
}

#[test]
fn resolved_event_name_splits_at_its_only_separator() {
    for kernel in [kernel(), bare_kernel()] {
        let symbol = Symbol::from_name("skb:consume_skb", &kernel).unwrap();
        let name = symbol.name();
        assert_eq!(name.matches(':').count(), 1);
        let (_, target) = name.split_once(':').unwrap();
        assert_eq!(symbol.attach_name(), target);
    }
}

#[test]
fn address_of_tracepoint_resolves_like_its_name() {
    let kernel = kernel();
    let by_name = Symbol::from_name("skb:kfree_skb", &kernel).unwrap();
    let by_addr = Symbol::from_addr(KFREE_SKB_TRACEPOINT, &kernel).unwrap();
    assert_eq!(by_addr, by_name);
    assert_eq!(by_name.addr(&kernel), Ok(KFREE_SKB_TRACEPOINT));
}

#[test]
fn round_trip_through_the_address_keeps_the_attach_name() {
    for kernel in [kernel(), bare_kernel()] {
        for name in ["skb:kfree_skb", "skb:consume_skb", "kfree_skb_reason", "tcp_sendmsg"] {
            let symbol = Symbol::from_name(name, &kernel).unwrap();
            let addr = symbol.addr(&kernel).unwrap();
            let back = Symbol::from_addr(addr, &kernel).unwrap();
            assert_eq!(back.attach_name(), symbol.attach_name());
        }
    }
}

#[test]
fn one_past_a_known_address_is_not_traceable() {
    let kernel = kernel();
    assert_eq!(
        Symbol::from_addr(KFREE_SKB_TRACEPOINT + 1, &kernel),
        Err(SymbolError::NotTraceable(Target::Address(KFREE_SKB_TRACEPOINT + 1)))
    );
    assert_eq!(
        Symbol::from_addr(KFREE_SKB_REASON + 1, &kernel),
        Err(SymbolError::NotTraceable(Target::Address(KFREE_SKB_REASON + 1)))
    );
}

#[test]
fn tracepoint_without_a_listed_event_has_unknown_group() {
    // The events are listed, and none has this target.
    let kernel = kernel();
    let symbol = Symbol::from_addr(0xffffffff9b2e5600, &kernel).unwrap();
    assert_eq!(symbol, Symbol::Event("unknown:orphan".to_string()));
    assert_eq!(symbol.attach_name(), "orphan");
    assert_eq!(symbol.addr_name(), "__tracepoint_orphan");

    // The events are not listed at all.
    let kernel = bare_kernel();
    let symbol = Symbol::from_addr(KFREE_SKB_TRACEPOINT, &kernel).unwrap();
    assert_eq!(symbol, Symbol::Event("unknown:kfree_skb".to_string()));
    assert_eq!(symbol.typedef_name(), "btf_trace_kfree_skb");
    assert_eq!(symbol.nargs(&kernel), Ok(3));
}

#[test]
fn definitive_no_wins_over_the_symbol_table() {
    let kernel = kernel();
    // In the symbol table, in neither list.
    assert_eq!(kernel.get_symbol_addr("not_listed"), Ok(0xffffffff99e00300));
    assert_eq!(Symbol::from_name("not_listed", &kernel), Err(not_traceable("not_listed")));
    assert_eq!(
        Symbol::from_name("__tracepoint_kfree_skb", &kernel),
        Err(not_traceable("__tracepoint_kfree_skb"))
    );
    // In no table at all.
    assert_eq!(Symbol::from_name("nowhere", &kernel), Err(not_traceable("nowhere")));
    assert_eq!(Symbol::from_name("skb:nowhere", &kernel), Err(not_traceable("skb:nowhere")));
}

#[test]
fn listed_event_wins_over_listed_function() {
    let mut kernel = KernelInspector::new();
    assert!(kernel.set_traceable_events(strings(&["a:b"])));
    kernel.set_traceable_functions(strings(&["a:b"]));
    assert_eq!(Symbol::from_name("a:b", &kernel), Ok(Symbol::Event("a:b".to_string())));
}

#[test]
fn without_lists_the_symbol_table_and_the_form_decide() {
    let kernel = bare_kernel();
    assert_eq!(
        Symbol::from_name("skb:kfree_skb", &kernel),
        Ok(Symbol::Event("skb:kfree_skb".to_string()))
    );
    // Any group will do: only the target is looked up.
    assert_eq!(
        Symbol::from_name("anything:kfree_skb", &kernel),
        Ok(Symbol::Event("anything:kfree_skb".to_string()))
    );
    assert_eq!(
        Symbol::from_name("not_listed", &kernel),
        Ok(Symbol::Func("not_listed".to_string()))
    );
    assert_eq!(
        Symbol::from_name("tcp_v4_rcv.isra.0", &kernel),
        Ok(Symbol::Func("tcp_v4_rcv.isra.0".to_string()))
    );
    assert_eq!(Symbol::from_name("skb:nowhere", &kernel), Err(not_traceable("skb:nowhere")));
    assert_eq!(Symbol::from_name("nowhere", &kernel), Err(not_traceable("nowhere")));
    // The function itself is there, the tracepoint of that name is not.
    assert_eq!(
        Symbol::from_name("skb:kfree_skb_reason", &kernel),
        Err(not_traceable("skb:kfree_skb_reason"))
    );
    assert_eq!(Symbol::from_name("a:b:c", &kernel), Err(not_traceable("a:b:c")));
}

#[test]
fn prefixed_name_without_lists_is_an_event_without_group() {
    let kernel = bare_kernel();
    let symbol = Symbol::from_name("__tracepoint_kfree_skb", &kernel).unwrap();
    assert_eq!(symbol, Symbol::Event("kfree_skb".to_string()));
    assert!(!symbol.is_well_formed());
    assert_eq!(symbol.name(), "kfree_skb");
}

#[test]
fn one_list_alone_does_not_settle_a_no() {
    // Events are listed, functions are not: a name in neither falls back to
    // the symbol table.
    let mut kernel = symbol_table();
    assert!(kernel.set_traceable_events(strings(&["skb:kfree_skb"])));
    assert_eq!(
        Symbol::from_name("tcp_sendmsg", &kernel),
        Ok(Symbol::Func("tcp_sendmsg".to_string()))
    );
    assert_eq!(
        Symbol::from_name("skb:consume_skb", &kernel),
        Ok(Symbol::Event("skb:consume_skb".to_string()))
    );
    assert_eq!(Symbol::from_name("nowhere", &kernel), Err(not_traceable("nowhere")));

    // Functions are listed, events are not.
    let mut kernel = symbol_table();
    kernel.set_traceable_functions(strings(&["tcp_sendmsg"]));
    assert_eq!(
        Symbol::from_name("tcp_sendmsg", &kernel),
        Ok(Symbol::Func("tcp_sendmsg".to_string()))
    );
    assert_eq!(
        Symbol::from_name("tcp_recvmsg", &kernel),
        Ok(Symbol::Func("tcp_recvmsg".to_string()))
    );
    assert_eq!(
        Symbol::from_name("skb:kfree_skb", &kernel),
        Ok(Symbol::Event("skb:kfree_skb".to_string()))
    );
}

#[test]
fn listed_names_need_no_symbol_table() {
    let mut kernel = KernelInspector::new();
    assert!(kernel.set_traceable_events(strings(&["net:netif_rx"])));
    kernel.set_traceable_functions(strings(&["ip_rcv"]));
    assert_eq!(
        Symbol::from_name("net:netif_rx", &kernel),
        Ok(Symbol::Event("net:netif_rx".to_string()))
    );
    assert_eq!(Symbol::from_name("ip_rcv", &kernel), Ok(Symbol::Func("ip_rcv".to_string())));
}

#[test]
fn from_name_no_inspect_goes_by_the_form() {
    assert_eq!(
        Symbol::from_name_no_inspect("skb:kfree_skb"),
        Symbol::Event("skb:kfree_skb".to_string())
    );
    assert_eq!(
        Symbol::from_name_no_inspect("__tracepoint_kfree_skb"),
        Symbol::Event("kfree_skb".to_string())
    );
    assert_eq!(
        Symbol::from_name_no_inspect("kfree_skb_reason"),
        Symbol::Func("kfree_skb_reason".to_string())
    );
    assert_eq!(
        Symbol::from_name_no_inspect("__tracepoint_"),
        Symbol::Event(String::new())
    );
    assert_eq!(
        Symbol::from_name_no_inspect("__tracepoint"),
        Symbol::Func("__tracepoint".to_string())
    );
    assert_eq!(
        Symbol::from_name_no_inspect("__tracepoint_a:b"),
        Symbol::Event("__tracepoint_a:b".to_string())
    );
    assert_eq!(Symbol::from_name_no_inspect(""), Symbol::Func(String::new()));
}

#[test]
fn well_formed_events_hold_one_separator() {
    assert!(Symbol::Event("a:b".to_string()).is_well_formed());
    assert!(Symbol::Event(":".to_string()).is_well_formed());
    assert!(!Symbol::Event("ab".to_string()).is_well_formed());
    assert!(!Symbol::Event("a:b:c".to_string()).is_well_formed());
    assert!(!Symbol::Event(String::new()).is_well_formed());
    assert!(Symbol::Func("a:b:c".to_string()).is_well_formed());
}

#[test]
fn event_forms_at_the_edges() {
    let symbol = Symbol::Event("group:".to_string());
    assert_eq!(symbol.attach_name(), "");
    assert_eq!(symbol.addr_name(), "__tracepoint_");
    assert_eq!(symbol.typedef_name(), "btf_trace_");
    let symbol = Symbol::Event(":target".to_string());
    assert_eq!(symbol.attach_name(), "target");
    let symbol = Symbol::Event("sché:tâche".to_string());
    assert_eq!(symbol.attach_name(), "tâche");
    assert_eq!(symbol.addr_name(), "__tracepoint_tâche");
}

#[test]
fn address_of_a_symbol() {
    let kernel = kernel();
    let symbol = Symbol::from_name("kfree_skb_reason", &kernel).unwrap();
    assert_eq!(symbol.addr(&kernel), Ok(KFREE_SKB_REASON));
    let symbol = Symbol::from_name("skb:consume_skb", &kernel).unwrap();
    assert_eq!(symbol.addr(&kernel), Ok(0xffffffff9b2e5500));
    // Listed as traceable, absent from the symbol table.
    let symbol = Symbol::from_name("sched:sched_switch", &kernel).unwrap();
    assert_eq!(symbol.addr(&kernel), Err(InspectError::UnknownSymbol));
    let symbol = Symbol::from_name("tcp_gone", &kernel).unwrap();
    assert_eq!(symbol.addr(&kernel), Err(InspectError::UnknownSymbol));
}

#[test]
fn arguments_need_type_information() {
    let mut kernel = symbol_table();
    let symbol = Symbol::from_name("kfree_skb_reason", &kernel).unwrap();
    assert_eq!(symbol.nargs(&kernel), Err(InspectError::TypesUnavailable));
    assert_eq!(
        symbol.parameter_offset("struct sk_buff *", &kernel),
        Err(InspectError::TypesUnavailable)
    );
    type_information(&mut kernel);
    assert_eq!(symbol.nargs(&kernel), Ok(2));
    let symbol = Symbol::from_name("tcp_sendmsg", &kernel).unwrap();
    assert_eq!(symbol.nargs(&kernel), Err(InspectError::UnknownType));
    assert_eq!(
        symbol.parameter_offset("struct sk_buff *", &kernel),
        Err(InspectError::UnknownType)
    );
    // An event is looked up under its own type name, not under its target.
    let symbol = Symbol::from_name("skb:consume_skb", &kernel).unwrap();
    assert_eq!(symbol.nargs(&kernel), Err(InspectError::UnknownType));
}

#[test]
fn matching_functions_are_resolved_in_listing_order() {
    let kernel = kernel();
    assert_eq!(
        matching_functions_to_symbols("tcp_*", &kernel),
        Ok(vec![
            Symbol::Func("tcp_sendmsg".to_string()),
            Symbol::Func("tcp_recvmsg".to_string()),
            Symbol::Func("tcp_gone".to_string()),
        ])
    );
    assert_eq!(
        matching_functions_to_symbols("*skb*", &kernel),
        Ok(vec![
            Symbol::Func("kfree_skb_reason".to_string()),
            Symbol::Func("consume_skb".to_string()),
        ])
    );
    assert_eq!(
        matching_functions_to_symbols("consume_skb", &kernel),
        Ok(vec![Symbol::Func("consume_skb".to_string())])
    );
}

#[test]
fn matching_never_gives_a_dotted_name() {
    let kernel = kernel();
    for pattern in ["*", "tcp_*", "*isra*", "*.*", "tcp_v4_rcv*"] {
        if let Ok(symbols) = matching_functions_to_symbols(pattern, &kernel) {
            assert!(!symbols.is_empty());
            for symbol in symbols {
                assert!(!symbol.name().contains('.'));
                assert!(symbol.is_well_formed());
            }
        }
    }
    assert_eq!(matching_functions_to_symbols("*", &kernel).unwrap().len(), 5);
}

#[test]
fn matching_nothing_is_an_error() {
    let kernel = kernel();
    assert_eq!(
        matching_functions_to_symbols("udp_*", &kernel),
        Err(SymbolError::NoMatches("udp_*".to_string()))
    );
    // Only a dotted name matches.
    assert_eq!(
        matching_functions_to_symbols("tcp_v4_*", &kernel),
        Err(SymbolError::NoMatches("tcp_v4_*".to_string()))
    );
    assert_eq!(
        matching_functions_to_symbols("", &kernel),
        Err(SymbolError::NoMatches(String::new()))
    );
}

#[test]
fn matching_needs_the_list_of_functions() {
    let kernel = bare_kernel();
    assert_eq!(
        matching_functions_to_symbols("tcp_*", &kernel),
        Err(SymbolError::Inspection(InspectError::FunctionsUnavailable))
    );
}

#[test]
fn matching_prefers_the_event_of_the_same_name() {
    let mut kernel = KernelInspector::new();
    assert!(kernel.set_traceable_events(strings(&["x:y"])));
    kernel.set_traceable_functions(strings(&["x:y", "xz"]));
    assert_eq!(
        matching_functions_to_symbols("x*", &kernel),
        Ok(vec![Symbol::Event("x:y".to_string()), Symbol::Func("xz".to_string())])
    );
}

#[test]
fn attachable_events_hold_a_separator() {
    assert!(Symbol::Event("a:b".to_string()).is_attachable());
    assert!(Symbol::Event("a:b:c".to_string()).is_attachable());
    assert!(!Symbol::Event("ab".to_string()).is_attachable());
    assert!(Symbol::Func("ab".to_string()).is_attachable());
    // The target is what follows the first separator.
    let symbol = Symbol::Event("a:b:c".to_string());
    assert_eq!(symbol.attach_name(), "b:c");
    assert_eq!(symbol.addr_name(), "__tracepoint_b:c");
    assert_eq!(symbol.typedef_name(), "btf_trace_b:c");
}

#[test]
fn symbol_of_an_address_is_found_at_that_address() {
    for kernel in [kernel(), bare_kernel()] {
        for addr in [
            KFREE_SKB_TRACEPOINT,
            KFREE_SKB_REASON,
            0xffffffff9b2e5500,
            0xffffffff9b2e5600,
            0xffffffff99d1e000,
            0xffffffff99e00000,
        ] {
            let symbol = Symbol::from_addr(addr, &kernel).unwrap();
            assert!(symbol.is_well_formed());
            assert_eq!(symbol.addr(&kernel), Ok(addr));
        }
    }
}

#[test]
fn function_named_like_a_tracepoint_comes_back_as_an_event() {
    let mut kernel = KernelInspector::new();
    assert!(kernel.add_symbol(0x1000, "__tracepoint_odd"));
    assert!(kernel.set_traceable_events(Vec::new()));
    kernel.set_traceable_functions(strings(&["__tracepoint_odd"]));
    let symbol = Symbol::from_name("__tracepoint_odd", &kernel).unwrap();
    assert_eq!(symbol, Symbol::Func("__tracepoint_odd".to_string()));
    assert_eq!(symbol.addr(&kernel), Ok(0x1000));
    let back = Symbol::from_addr(0x1000, &kernel).unwrap();
    assert_eq!(back, Symbol::Event("unknown:odd".to_string()));
    assert_eq!(back.attach_name(), "odd");
}
