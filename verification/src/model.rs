//! The mathematical content of what is known of a running kernel, and what
//! each query means on it.

use vstd::prelude::*;

use crate::glob::glob_matches;
use crate::seqs::{
    first_index, first_where, lemma_first_index, lemma_first_index_no_duplicates,
    lemma_first_where,
};
use crate::text::occurs_once;

verus! {

/// Why the inspector could not answer a query.
#[derive(Clone, Copy, Debug, PartialEq, Eq, Structural)]
pub enum InspectError {
    /// The symbol table holds no symbol of that name.
    UnknownSymbol,
    /// The symbol table holds no symbol at that address.
    UnknownAddress,
    /// The list of traceable functions is not available.
    FunctionsUnavailable,
    /// No type information is available.
    TypesUnavailable,
    /// The type information holds no signature of that name.
    UnknownType,
    /// The kernel configuration is not available.
    ConfigUnavailable,
}

/// One line of the symbol table, as a mathematical value.
pub struct KernelSymbolView {
    pub addr: u64,
    pub name: Seq<char>,
}

/// A signature, as a mathematical value.
pub struct SignatureView {
    pub name: Seq<char>,
    pub parameters: Seq<Seq<char>>,
}

/// A configuration option, as a mathematical value.
pub struct ConfigEntryView {
    pub key: Seq<char>,
    pub value: Seq<char>,
}

/// The views of a list of strings.
pub open spec fn views(list: Seq<String>) -> Seq<Seq<char>> {
    list.map_values(|s: String| s@)
}

/// `event`, of the form `group:target`, has the given target.
pub open spec fn has_target(event: Seq<char>, target: Seq<char>) -> bool {
    (seq![':'] + target).is_suffix_of(event)
}

/// The mathematical content of a [`KernelInspector`]. Each optional part is
/// `None` where the host does not offer it.
pub struct KernelView {
    pub symbols: Seq<KernelSymbolView>,
    pub events: Option<Seq<Seq<char>>>,
    pub functions: Option<Seq<Seq<char>>>,
    pub signatures: Option<Seq<SignatureView>>,
    pub modules: Option<Seq<Seq<char>>>,
    pub config: Option<Seq<ConfigEntryView>>,
}

impl KernelView {
    /// No symbol, and nothing else available.
    pub open spec fn empty() -> KernelView {
        KernelView {
            symbols: Seq::empty(),
            events: None,
            functions: None,
            signatures: None,
            modules: None,
            config: None,
        }
    }

    pub open spec fn signature_names(self) -> Seq<Seq<char>> {
        match self.signatures {
            Some(list) => list.map_values(|s: SignatureView| s.name),
            None => Seq::empty(),
        }
    }

    pub open spec fn config_keys(self) -> Seq<Seq<char>> {
        match self.config {
            Some(list) => list.map_values(|e: ConfigEntryView| e.key),
            None => Seq::empty(),
        }
    }

    pub open spec fn symbol_names(self) -> Seq<Seq<char>> {
        self.symbols.map_values(|e: KernelSymbolView| e.name)
    }

    pub open spec fn symbol_addresses(self) -> Seq<u64> {
        self.symbols.map_values(|e: KernelSymbolView| e.addr)
    }

    /// What every inspector maintains: the symbol table pairs names and
    /// addresses one to one, no symbol name holds a `:`, every traceable event
    /// is of the form `group:target`, and the length of a signature fits `u32`.
    pub open spec fn valid(self) -> bool {
        &&& self.symbol_names().no_duplicates()
        &&& self.symbol_addresses().no_duplicates()
        &&& forall|i: int|
            0 <= i < self.symbols.len() ==> !(#[trigger] self.symbols[i]).name.contains(':')
        &&& match self.events {
            Some(list) => forall|i: int|
                0 <= i < list.len() ==> occurs_once(#[trigger] list[i], ':'),
            None => true,
        }
        &&& match self.signatures {
            Some(list) => forall|i: int|
                0 <= i < list.len() ==> (#[trigger] list[i]).parameters.len() <= u32::MAX,
            None => true,
        }
    }

    /// Whether `name` is listed as a traceable event; `None` where the list is
    /// not available.
    pub open spec fn event_traceable(self, name: Seq<char>) -> Option<bool> {
        match self.events {
            Some(list) => Some(list.contains(name)),
            None => None,
        }
    }

    /// Whether `name` is listed as a traceable function; `None` where the list
    /// is not available.
    pub open spec fn function_traceable(self, name: Seq<char>) -> Option<bool> {
        match self.functions {
            Some(list) => Some(list.contains(name)),
            None => None,
        }
    }

    /// The address of the symbol called `name`.
    pub open spec fn symbol_addr(self, name: Seq<char>) -> Option<u64> {
        match first_index(self.symbol_names(), name) {
            Some(i) => Some(self.symbols[i].addr),
            None => None,
        }
    }

    /// The name of the symbol at `addr`.
    pub open spec fn symbol_name(self, addr: u64) -> Option<Seq<char>> {
        match first_index(self.symbol_addresses(), addr) {
            Some(i) => Some(self.symbols[i].name),
            None => None,
        }
    }

    /// The first listed event with the given target; `None` where the list is
    /// not available or holds no such event.
    pub open spec fn matching_event(self, target: Seq<char>) -> Option<Seq<char>> {
        match self.events {
            Some(list) => match first_where(list, |e: Seq<char>| has_target(e, target)) {
                Some(i) => Some(list[i]),
                None => None,
            },
            None => None,
        }
    }

    /// The traceable functions that match the glob `pattern`, in listing order.
    pub open spec fn matching_functions(self, pattern: Seq<char>) -> Result<
        Seq<Seq<char>>,
        InspectError,
    > {
        match self.functions {
            Some(list) => Ok(list.filter(|f: Seq<char>| glob_matches(pattern, f))),
            None => Err(InspectError::FunctionsUnavailable),
        }
    }

    /// The parameter types recorded under `typedef`.
    pub open spec fn parameters(self, typedef: Seq<char>) -> Result<Seq<Seq<char>>, InspectError> {
        match self.signatures {
            Some(list) => match first_index(self.signature_names(), typedef) {
                Some(i) => Ok(list[i].parameters),
                None => Err(InspectError::UnknownType),
            },
            None => Err(InspectError::TypesUnavailable),
        }
    }

    /// How many parameters the signature called `typedef` has.
    pub open spec fn nargs(self, typedef: Seq<char>) -> Result<u32, InspectError> {
        match self.parameters(typedef) {
            Ok(parameters) => Ok(parameters.len() as u32),
            Err(e) => Err(e),
        }
    }

    /// The position of the first parameter of type `parameter_type` in the
    /// signature called `typedef`; `Ok(None)` where it has no such parameter.
    pub open spec fn parameter_offset(
        self,
        typedef: Seq<char>,
        parameter_type: Seq<char>,
    ) -> Result<Option<u32>, InspectError> {
        match self.parameters(typedef) {
            Ok(parameters) => Ok(
                match first_index(parameters, parameter_type) {
                    Some(i) => Some(i as u32),
                    None => None,
                },
            ),
            Err(e) => Err(e),
        }
    }

    /// Whether the module called `name` is loaded; `None` where the list of
    /// modules is not available.
    pub open spec fn module_loaded(self, name: Seq<char>) -> Option<bool> {
        match self.modules {
            Some(list) => Some(list.contains(name)),
            None => None,
        }
    }

    /// The value of the configuration option `key`; `Ok(None)` where the
    /// configuration does not set it.
    pub open spec fn config_option(self, key: Seq<char>) -> Result<
        Option<Seq<char>>,
        InspectError,
    > {
        match self.config {
            Some(list) => Ok(
                match first_index(self.config_keys(), key) {
                    Some(i) => Some(list[i].value),
                    None => None,
                },
            ),
            None => Err(InspectError::ConfigUnavailable),
        }
    }
}

impl KernelView {
    /// A listed event is of the form `group:target`.
    pub proof fn lemma_listed_event(self, name: Seq<char>)
        requires
            self.valid(),
            self.event_traceable(name) == Some(true),
        ensures
            occurs_once(name, ':'),
    {
        let list = self.events.unwrap();
        let i = choose|i: int| 0 <= i < list.len() && list[i] == name;
        assert(occurs_once(list[i], ':'));
    }

    /// A name in the symbol table holds no `:`.
    pub proof fn lemma_table_name(self, name: Seq<char>)
        requires
            self.valid(),
            self.symbol_addr(name) is Some,
        ensures
            !name.contains(':'),
    {
        lemma_first_index(self.symbol_names(), name);
        let i = first_index(self.symbol_names(), name).unwrap();
        assert(self.symbols[i].name == name);
    }

    /// The symbol at the address of a name has that name.
    pub proof fn lemma_name_of_addr(self, name: Seq<char>, addr: u64)
        requires
            self.valid(),
            self.symbol_addr(name) == Some(addr),
        ensures
            self.symbol_name(addr) == Some(name),
    {
        lemma_first_index(self.symbol_names(), name);
        let i = first_index(self.symbol_names(), name).unwrap();
        assert(self.symbol_addresses()[i] == addr);
        lemma_first_index_no_duplicates(self.symbol_addresses(), i);
    }

    /// The address of the name of the symbol at an address is that address.
    pub proof fn lemma_addr_of_name(self, addr: u64, name: Seq<char>)
        requires
            self.valid(),
            self.symbol_name(addr) == Some(name),
        ensures
            self.symbol_addr(name) == Some(addr),
    {
        lemma_first_index(self.symbol_addresses(), addr);
        let i = first_index(self.symbol_addresses(), addr).unwrap();
        assert(self.symbol_names()[i] == name);
        lemma_first_index_no_duplicates(self.symbol_names(), i);
    }

    /// The event found for a target is listed, has that target, and is of the
    /// form `group:target`.
    pub proof fn lemma_matching_event(self, target: Seq<char>)
        requires
            self.valid(),
            self.matching_event(target) is Some,
        ensures
            self.event_traceable(self.matching_event(target).unwrap()) == Some(true),
            has_target(self.matching_event(target).unwrap(), target),
            occurs_once(self.matching_event(target).unwrap(), ':'),
    {
        let list = self.events.unwrap();
        let p = |e: Seq<char>| has_target(e, target);
        lemma_first_where(list, p);
        let i = first_where(list, p).unwrap();
        assert(p(list[i]));
        assert(list.contains(list[i]));
        assert(occurs_once(list[i], ':'));
    }
}

} // verus!
