//! What the running kernel exposes about its symbols, taken once and then
//! queried: the symbol table, the lists of traceable events and functions, the
//! signatures known from type information, the loaded modules and the build
//! configuration. Every part but the symbol table may be unavailable on a
//! host; a query then answers "unknown", not "no".

use vstd::prelude::*;
use vstd::string::*;

use crate::glob::{glob_match, glob_matches};
use crate::model::{
    has_target, views, ConfigEntryView, InspectError, KernelSymbolView, KernelView, SignatureView,
};
use crate::seqs::{
    first_index, first_where, lemma_first_index, lemma_first_index_is, lemma_first_where,
    lemma_first_where_is,
};
use crate::text::{contains_char, find_char, has_suffix, join, occurs_once, skip_chars};

verus! {

/// The parameter types of a function, or of the type that describes the
/// arguments of an event, in order.
pub struct Signature {
    pub name: String,
    pub parameters: Vec<String>,
}

/// One option of the kernel's build configuration.
pub struct ConfigEntry {
    pub key: String,
    pub value: String,
}

impl View for Signature {
    type V = SignatureView;

    open spec fn view(&self) -> SignatureView {
        SignatureView { name: self.name@, parameters: views(self.parameters@) }
    }
}

impl View for ConfigEntry {
    type V = ConfigEntryView;

    open spec fn view(&self) -> ConfigEntryView {
        ConfigEntryView { key: self.key@, value: self.value@ }
    }
}

/// The views of a list of signatures.
pub open spec fn signature_views(list: Seq<Signature>) -> Seq<SignatureView> {
    list.map_values(|s: Signature| s@)
}

/// The views of a list of configuration options.
pub open spec fn config_views(list: Seq<ConfigEntry>) -> Seq<ConfigEntryView> {
    list.map_values(|e: ConfigEntry| e@)
}

/// The position of the first string of `list` equal to `key`.
pub fn position_of(list: &Vec<String>, key: &str) -> (r: Option<usize>)
    ensures
        match r {
            Some(i) => first_index(views(list@), key@) == Some(i as int),
            None => first_index(views(list@), key@) is None,
        },
{
    let wanted: String = String::from_str(key);
    let mut i: usize = 0;
    while i < list.len()
        invariant
            i <= list@.len(),
            wanted@ == key@,
            forall|j: int| 0 <= j < i ==> views(list@)[j] != key@,
        decreases list@.len() - i,
    {
        if list[i] == wanted {
            proof {
                lemma_first_index_is(views(list@), key@, i as int);
            }
            return Some(i);
        }
        i += 1;
    }
    proof {
        lemma_first_index(views(list@), key@);
    }
    None
}

/// Whether `name` is of the form `group:target`: it holds exactly one `:`.
pub fn is_event_name(name: &str) -> (r: bool)
    ensures
        r == occurs_once(name@, ':'),
{
    proof {
        lemma_first_index(name@, ':');
    }
    match find_char(name, ':') {
        Some(i) => {
            let rest: String = skip_chars(name, i + 1);
            !contains_char(rest.as_str(), ':')
        },
        None => false,
    }
}

struct SymbolEntry {
    addr: u64,
    name: String,
}

impl View for SymbolEntry {
    type V = KernelSymbolView;

    closed spec fn view(&self) -> KernelSymbolView {
        KernelSymbolView { addr: self.addr, name: self.name@ }
    }
}

/// What is known of the running kernel. It is filled once, through
/// [`KernelInspector::add_symbol`] and the `set_` functions, and then only
/// read; what was never set is unavailable. Its content is its view, a
/// [`KernelView`], which is valid at all times.
pub struct KernelInspector {
    symbols: Vec<SymbolEntry>,
    events: Option<Vec<String>>,
    functions: Option<Vec<String>>,
    signatures: Option<Vec<Signature>>,
    modules: Option<Vec<String>>,
    config: Option<Vec<ConfigEntry>>,
}

spec fn option_views(list: Option<Vec<String>>) -> Option<Seq<Seq<char>>> {
    match list {
        Some(v) => Some(views(v@)),
        None => None,
    }
}

impl View for KernelInspector {
    type V = KernelView;

    closed spec fn view(&self) -> KernelView {
        KernelView {
            symbols: self.symbols@.map_values(|e: SymbolEntry| e@),
            events: option_views(self.events),
            functions: option_views(self.functions),
            signatures: match self.signatures {
                Some(v) => Some(signature_views(v@)),
                None => None,
            },
            modules: option_views(self.modules),
            config: match self.config {
                Some(v) => Some(config_views(v@)),
                None => None,
            },
        }
    }
}

impl KernelInspector {
    /// Holds of every inspector, at all times.
    #[verifier::type_invariant]
    pub open spec fn inv(&self) -> bool {
        self@.valid()
    }

    /// An inspector with an empty symbol table and nothing else available.
    pub fn new() -> (r: Self)
        ensures
            r@ == KernelView::empty(),
            r@.valid(),
    {
        let r = KernelInspector {
            symbols: Vec::new(),
            events: None,
            functions: None,
            signatures: None,
            modules: None,
            config: None,
        };
        assert(r@.symbols =~= Seq::empty());
        r
    }

    fn index_of_name(&self, name: &str) -> (r: Option<usize>)
        ensures
            match r {
                Some(i) => i < self.symbols@.len() && first_index(self@.symbol_names(), name@)
                    == Some(i as int),
                None => first_index(self@.symbol_names(), name@) is None,
            },
    {
        let wanted: String = String::from_str(name);
        let mut i: usize = 0;
        while i < self.symbols.len()
            invariant
                i <= self.symbols@.len(),
                wanted@ == name@,
                self@.symbol_names().len() == self.symbols@.len(),
                forall|j: int| 0 <= j < i ==> self@.symbol_names()[j] != name@,
            decreases self.symbols@.len() - i,
        {
            if self.symbols[i].name == wanted {
                proof {
                    lemma_first_index_is(self@.symbol_names(), name@, i as int);
                }
                return Some(i);
            }
            i += 1;
        }
        proof {
            lemma_first_index(self@.symbol_names(), name@);
        }
        None
    }

    fn index_of_address(&self, addr: u64) -> (r: Option<usize>)
        ensures
            match r {
                Some(i) => i < self.symbols@.len() && first_index(self@.symbol_addresses(), addr)
                    == Some(i as int),
                None => first_index(self@.symbol_addresses(), addr) is None,
            },
    {
        let mut i: usize = 0;
        while i < self.symbols.len()
            invariant
                i <= self.symbols@.len(),
                self@.symbol_addresses().len() == self.symbols@.len(),
                forall|j: int| 0 <= j < i ==> self@.symbol_addresses()[j] != addr,
            decreases self.symbols@.len() - i,
        {
            if self.symbols[i].addr == addr {
                proof {
                    lemma_first_index_is(self@.symbol_addresses(), addr, i as int);
                }
                return Some(i);
            }
            i += 1;
        }
        proof {
            lemma_first_index(self@.symbol_addresses(), addr);
        }
        None
    }

    /// Adds a symbol to the table, unless its name holds a `:` or the table
    /// already has a symbol of that name or at that address.
    pub fn add_symbol(&mut self, addr: u64, name: &str) -> (added: bool)
        ensures
            added == (!name@.contains(':') && old(self)@.symbol_addr(name@) is None && old(
                self,
            )@.symbol_name(addr) is None),
            added ==> final(self)@ == (KernelView {
                symbols: old(self)@.symbols.push(KernelSymbolView { addr, name: name@ }),
                ..old(self)@
            }),
            !added ==> final(self)@ == old(self)@,
            final(self)@.valid(),
    {
        proof {
            use_type_invariant(&*self);
        }
        if contains_char(name, ':') {
            return false;
        }
        if self.index_of_name(name).is_some() {
            return false;
        }
        if self.index_of_address(addr).is_some() {
            return false;
        }
        let ghost before = self@;
        let mut table: Vec<SymbolEntry> = Vec::new();
        core::mem::swap(&mut self.symbols, &mut table);
        table.push(SymbolEntry { addr, name: String::from_str(name) });
        proof {
            let entry = KernelSymbolView { addr, name: name@ };
            let after = KernelView { symbols: before.symbols.push(entry), ..before };
            assert(table@.map_values(|e: SymbolEntry| e@) =~= after.symbols);
            lemma_first_index(before.symbol_names(), name@);
            lemma_first_index(before.symbol_addresses(), addr);
            assert(after.symbol_names() =~= before.symbol_names().push(name@));
            assert(after.symbol_addresses() =~= before.symbol_addresses().push(addr));
            assert(after.valid());
        }
        core::mem::swap(&mut self.symbols, &mut table);
        true
    }

    /// Makes the list of traceable events available, unless one of them is not
    /// of the form `group:target`.
    #[verifier::loop_isolation(false)]
    pub fn set_traceable_events(&mut self, events: Vec<String>) -> (accepted: bool)
        ensures
            accepted == (forall|i: int|
                0 <= i < events@.len() ==> occurs_once(#[trigger] views(events@)[i], ':')),
            accepted ==> final(self)@ == (KernelView {
                events: Some(views(events@)),
                ..old(self)@
            }),
            !accepted ==> final(self)@ == old(self)@,
            final(self)@.valid(),
    {
        proof {
            use_type_invariant(&*self);
        }
        let mut i: usize = 0;
        while i < events.len()
            invariant
                i <= events@.len(),
                forall|j: int| 0 <= j < i ==> occurs_once(#[trigger] views(events@)[j], ':'),
            decreases events@.len() - i,
        {
            if !is_event_name(events[i].as_str()) {
                assert(!occurs_once(views(events@)[i as int], ':'));
                return false;
            }
            i += 1;
        }
        self.events = Some(events);
        true
    }

    /// Makes the list of traceable functions available.
    pub fn set_traceable_functions(&mut self, functions: Vec<String>)
        ensures
            final(self)@ == (KernelView { functions: Some(views(functions@)), ..old(self)@ }),
            final(self)@.valid(),
    {
        proof {
            use_type_invariant(&*self);
        }
        self.functions = Some(functions);
    }

    /// Makes type information available, unless one of the signatures has
    /// more parameters than `u32` can count.
    #[verifier::loop_isolation(false)]
    pub fn set_signatures(&mut self, signatures: Vec<Signature>) -> (accepted: bool)
        ensures
            accepted == (forall|i: int|
                0 <= i < signatures@.len() ==> (#[trigger] signature_views(
                    signatures@,
                )[i]).parameters.len() <= u32::MAX),
            accepted ==> final(self)@ == (KernelView {
                signatures: Some(signature_views(signatures@)),
                ..old(self)@
            }),
            !accepted ==> final(self)@ == old(self)@,
            final(self)@.valid(),
    {
        proof {
            use_type_invariant(&*self);
        }
        let mut i: usize = 0;
        while i < signatures.len()
            invariant
                i <= signatures@.len(),
                forall|j: int|
                    0 <= j < i ==> (#[trigger] signature_views(signatures@)[j]).parameters.len()
                        <= u32::MAX,
            decreases signatures@.len() - i,
        {
            if signatures[i].parameters.len() > u32::MAX as usize {
                assert(signature_views(signatures@)[i as int].parameters.len() > u32::MAX);
                return false;
            }
            i += 1;
        }
        self.signatures = Some(signatures);
        true
    }

    /// Makes the list of loaded modules available.
    pub fn set_loaded_modules(&mut self, modules: Vec<String>)
        ensures
            final(self)@ == (KernelView { modules: Some(views(modules@)), ..old(self)@ }),
            final(self)@.valid(),
    {
        proof {
            use_type_invariant(&*self);
        }
        self.modules = Some(modules);
    }

    /// Makes the kernel configuration available.
    pub fn set_config(&mut self, config: Vec<ConfigEntry>)
        ensures
            final(self)@ == (KernelView { config: Some(config_views(config@)), ..old(self)@ }),
            final(self)@.valid(),
    {
        proof {
            use_type_invariant(&*self);
        }
        self.config = Some(config);
    }

    /// Whether `name` is a traceable event; `None` where the host does not say.
    pub fn is_event_traceable(&self, name: &str) -> (r: Option<bool>)
        ensures
            r == self@.event_traceable(name@),
    {
        match &self.events {
            Some(list) => {
                proof {
                    lemma_first_index(views(list@), name@);
                }
                Some(position_of(list, name).is_some())
            },
            None => None,
        }
    }

    /// Whether `name` is a traceable function; `None` where the host does not
    /// say.
    pub fn is_function_traceable(&self, name: &str) -> (r: Option<bool>)
        ensures
            r == self@.function_traceable(name@),
    {
        match &self.functions {
            Some(list) => {
                proof {
                    lemma_first_index(views(list@), name@);
                }
                Some(position_of(list, name).is_some())
            },
            None => None,
        }
    }

    /// The address of the symbol called `name`.
    pub fn get_symbol_addr(&self, name: &str) -> (r: Result<u64, InspectError>)
        ensures
            r == match self@.symbol_addr(name@) {
                Some(addr) => Ok::<u64, InspectError>(addr),
                None => Err(InspectError::UnknownSymbol),
            },
    {
        match self.index_of_name(name) {
            Some(i) => Ok(self.symbols[i].addr),
            None => Err(InspectError::UnknownSymbol),
        }
    }

    /// The name of the symbol at `addr`.
    pub fn get_symbol_name(&self, addr: u64) -> (r: Result<String, InspectError>)
        ensures
            match self@.symbol_name(addr) {
                Some(name) => r is Ok && r->Ok_0@ == name,
                None => r == Err::<String, InspectError>(InspectError::UnknownAddress),
            },
    {
        match self.index_of_address(addr) {
            Some(i) => Ok(self.symbols[i].name.clone()),
            None => Err(InspectError::UnknownAddress),
        }
    }

    /// The first traceable event with the given target, in its full
    /// `group:target` form.
    #[verifier::loop_isolation(false)]
    pub fn find_matching_event(&self, target: &str) -> (r: Option<String>)
        ensures
            match self@.matching_event(target@) {
                Some(event) => r is Some && r->Some_0@ == event,
                None => r is None,
            },
    {
        match &self.events {
            Some(list) => {
                let suffix: String = join(":", target);
                let ghost p = |e: Seq<char>| has_target(e, target@);
                proof {
                    reveal_strlit(":");
                    assert(suffix@ =~= seq![':'] + target@);
                }
                let mut i: usize = 0;
                while i < list.len()
                    invariant
                        i <= list@.len(),
                        suffix@ == seq![':'] + target@,
                        p == |e: Seq<char>| has_target(e, target@),
                        forall|j: int| 0 <= j < i ==> !p(#[trigger] views(list@)[j]),
                    decreases list@.len() - i,
                {
                    if has_suffix(list[i].as_str(), suffix.as_str()) {
                        proof {
                            lemma_first_where_is(views(list@), p, i as int);
                        }
                        return Some(list[i].clone());
                    }
                    i += 1;
                }
                proof {
                    lemma_first_where(views(list@), p);
                    if first_where(views(list@), p) is Some {
                        let k = first_where(views(list@), p).unwrap();
                        assert(p(views(list@)[k]));
                    }
                }
                None
            },
            None => None,
        }
    }

    /// The traceable functions that match the glob `pattern`, in listing order.
    pub fn matching_functions(&self, pattern: &str) -> (r: Result<Vec<String>, InspectError>)
        ensures
            match self@.matching_functions(pattern@) {
                Ok(names) => r is Ok && views(r->Ok_0@) == names,
                Err(e) => r == Err::<Vec<String>, InspectError>(e),
            },
    {
        match &self.functions {
            Some(list) => {
                let ghost p = |f: Seq<char>| glob_matches(pattern@, f);
                let mut found: Vec<String> = Vec::new();
                let mut i: usize = 0;
                proof {
                    assert(views(list@).take(0) =~= Seq::empty());
                    assert(views(found@) =~= Seq::empty());
                }
                while i < list.len()
                    invariant
                        i <= list@.len(),
                        p == |f: Seq<char>| glob_matches(pattern@, f),
                        views(found@) == views(list@).take(i as int).filter(p),
                    decreases list@.len() - i,
                {
                    let ghost before = views(found@);
                    proof {
                        assert(views(list@).take(i + 1) =~= views(list@).take(i as int).push(
                            views(list@)[i as int],
                        ));
                        views(list@).take(i as int).lemma_filter_push(views(list@)[i as int], p);
                    }
                    if glob_match(pattern, list[i].as_str()) {
                        found.push(list[i].clone());
                        proof {
                            assert(views(found@) =~= before.push(views(list@)[i as int]));
                        }
                    }
                    i += 1;
                }
                proof {
                    assert(views(list@).take(i as int) =~= views(list@));
                }
                Ok(found)
            },
            None => Err(InspectError::FunctionsUnavailable),
        }
    }

    fn index_of_signature(list: &Vec<Signature>, typedef: &str) -> (r: Option<usize>)
        ensures
            match r {
                Some(i) => i < list@.len() && first_index(
                    signature_views(list@).map_values(|s: SignatureView| s.name),
                    typedef@,
                ) == Some(i as int),
                None => first_index(
                    signature_views(list@).map_values(|s: SignatureView| s.name),
                    typedef@,
                ) is None,
            },
    {
        let ghost names = signature_views(list@).map_values(|s: SignatureView| s.name);
        let wanted: String = String::from_str(typedef);
        let mut i: usize = 0;
        while i < list.len()
            invariant
                i <= list@.len(),
                wanted@ == typedef@,
                names == signature_views(list@).map_values(|s: SignatureView| s.name),
                forall|j: int| 0 <= j < i ==> names[j] != typedef@,
            decreases list@.len() - i,
        {
            if list[i].name == wanted {
                proof {
                    lemma_first_index_is(names, typedef@, i as int);
                }
                return Some(i);
            }
            i += 1;
        }
        proof {
            lemma_first_index(names, typedef@);
        }
        None
    }

    /// How many parameters the signature called `typedef` has.
    pub fn function_nargs(&self, typedef: &str) -> (r: Result<u32, InspectError>)
        ensures
            r == self@.nargs(typedef@),
    {
        proof {
            use_type_invariant(self);
        }
        match &self.signatures {
            Some(list) => match Self::index_of_signature(list, typedef) {
                Some(i) => {
                    assert(signature_views(list@)[i as int].parameters.len()
                        == list@[i as int].parameters@.len());
                    Ok(list[i].parameters.len() as u32)
                },
                None => Err(InspectError::UnknownType),
            },
            None => Err(InspectError::TypesUnavailable),
        }
    }

    /// The position of the first parameter of type `parameter_type` in the
    /// signature called `typedef`; `Ok(None)` where it has no such parameter.
    pub fn parameter_offset(&self, typedef: &str, parameter_type: &str) -> (r: Result<
        Option<u32>,
        InspectError,
    >)
        ensures
            r == self@.parameter_offset(typedef@, parameter_type@),
    {
        proof {
            use_type_invariant(self);
        }
        match &self.signatures {
            Some(list) => match Self::index_of_signature(list, typedef) {
                Some(i) => {
                    proof {
                        assert(signature_views(list@)[i as int].parameters == views(
                            list@[i as int].parameters@,
                        ));
                        lemma_first_index(views(list@[i as int].parameters@), parameter_type@);
                    }
                    match position_of(&list[i].parameters, parameter_type) {
                        Some(j) => Ok(Some(j as u32)),
                        None => Ok(None),
                    }
                },
                None => Err(InspectError::UnknownType),
            },
            None => Err(InspectError::TypesUnavailable),
        }
    }

    /// Whether the module called `name` is loaded; `None` where the host does
    /// not say.
    pub fn is_module_loaded(&self, name: &str) -> (r: Option<bool>)
        ensures
            r == self@.module_loaded(name@),
    {
        match &self.modules {
            Some(list) => {
                proof {
                    lemma_first_index(views(list@), name@);
                }
                Some(position_of(list, name).is_some())
            },
            None => None,
        }
    }

    /// The value of the configuration option `key`; `Ok(None)` where the
    /// configuration does not set it.
    #[verifier::loop_isolation(false)]
    pub fn get_config_option(&self, key: &str) -> (r: Result<Option<String>, InspectError>)
        ensures
            match self@.config_option(key@) {
                Ok(Some(value)) => r is Ok && r->Ok_0 is Some && r->Ok_0->Some_0@ == value,
                Ok(None) => r is Ok && r->Ok_0 is None,
                Err(e) => r == Err::<Option<String>, InspectError>(e),
            },
    {
        match &self.config {
            Some(list) => {
                let ghost keys = config_views(list@).map_values(|e: ConfigEntryView| e.key);
                let wanted: String = String::from_str(key);
                let mut i: usize = 0;
                while i < list.len()
                    invariant
                        i <= list@.len(),
                        wanted@ == key@,
                        keys == config_views(list@).map_values(|e: ConfigEntryView| e.key),
                        forall|j: int| 0 <= j < i ==> keys[j] != key@,
                    decreases list@.len() - i,
                {
                    if list[i].key == wanted {
                        proof {
                            lemma_first_index_is(keys, key@, i as int);
                        }
                        return Ok(Some(list[i].value.clone()));
                    }
                    i += 1;
                }
                proof {
                    lemma_first_index(keys, key@);
                }
                Ok(None)
            },
            None => Err(InspectError::ConfigUnavailable),
        }
    }
}

} // verus!
