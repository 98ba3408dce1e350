//! The connection-tracking collector: whether the running kernel can feed
//! it, and whether its hook is in place.

use vstd::prelude::*;
use vstd::string::*;

use crate::inspect::KernelInspector;
use crate::model::InspectError;

verus! {

/// Why connection tracking cannot be collected.
#[derive(Clone, Copy, Debug, PartialEq, Eq, Structural)]
pub enum CtError {
    /// Connection tracking is built as a module, and the module is not loaded.
    ModuleNotLoaded,
    /// The kernel was built without connection tracking.
    Unsupported,
}

/// Where the collector's events are decoded from.
#[derive(Clone, Copy, Debug, PartialEq, Eq, Structural)]
pub enum EventFactory {
    /// From what the hook in the kernel sends.
    Bpf,
    /// From stored events only.
    Plain,
}

/// The configuration option that says how connection tracking was built.
pub open spec fn conntrack_option() -> Seq<char> {
    "CONFIG_NF_CONNTRACK"@
}

/// The module that holds connection tracking where it was built as one.
pub open spec fn conntrack_module() -> Seq<char> {
    "nf_conntrack"@
}

/// Whether connection tracking can be collected, given the value of its
/// configuration option and whether its module is loaded. Built in, it can.
/// Built as a module, it can unless the module is known not to be loaded.
/// Where the configuration cannot be read, it is given a try. Otherwise the
/// kernel does not support it.
pub open spec fn conntrack_support(
    option: Result<Option<Seq<char>>, InspectError>,
    loaded: Option<bool>,
) -> Result<(), CtError> {
    match option {
        Ok(Some(value)) => if value == "y"@ {
            Ok(())
        } else if value == "m"@ {
            if loaded == Some(false) {
                Err(CtError::ModuleNotLoaded)
            } else {
                Ok(())
            }
        } else {
            Err(CtError::Unsupported)
        },
        Ok(None) => Err(CtError::Unsupported),
        Err(_) => Ok(()),
    }
}

/// The connection-tracking collector.
pub struct CtModule {
    init: bool,
}

impl CtModule {
    /// Whether the module's hook is in place.
    pub closed spec fn initialized(&self) -> bool {
        self.init
    }

    /// A module whose hook is not in place yet.
    pub fn new() -> (r: Self)
        ensures
            !r.initialized(),
    {
        CtModule { init: false }
    }

    /// The kernel types the collector reads from a probe's arguments.
    pub fn known_kernel_types(&self) -> (r: Option<Vec<&'static str>>)
        ensures
            r is Some,
            r->Some_0@.len() == 1,
            r->Some_0@[0]@ == "struct sk_buff *"@,
    {
        Some(vec!["struct sk_buff *"])
    }

    /// Whether the running kernel can feed the collector.
    pub fn can_run(&self, inspector: &KernelInspector) -> (r: Result<(), CtError>)
        ensures
            r == conntrack_support(
                inspector@.config_option(conntrack_option()),
                inspector@.module_loaded(conntrack_module()),
            ),
    {
        match inspector.get_config_option("CONFIG_NF_CONNTRACK") {
            Ok(Some(value)) => {
                if value == String::from_str("y") {
                    Ok(())
                } else if value == String::from_str("m") {
                    match inspector.is_module_loaded("nf_conntrack") {
                        Some(false) => Err(CtError::ModuleNotLoaded),
                        _ => Ok(()),
                    }
                } else {
                    Err(CtError::Unsupported)
                }
            },
            Ok(None) => Err(CtError::Unsupported),
            Err(_) => Ok(()),
        }
    }

    /// Records that the module's hook is in place.
    pub fn init(&mut self)
        ensures
            final(self).initialized(),
    {
        self.init = true;
    }

    /// Where the module's events are decoded from: from the kernel once the
    /// hook is in place, from stored events before.
    pub fn section_factory(&self) -> (r: EventFactory)
        ensures
            r == if self.initialized() {
                EventFactory::Bpf
            } else {
                EventFactory::Plain
            },
    {
        if self.init {
            EventFactory::Bpf
        } else {
            EventFactory::Plain
        }
    }
}

} // verus!
