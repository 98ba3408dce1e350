//! Kernel symbols that can be traced: events and functions. A symbol is made
//! from a name or from an address, and gives the names under which the kernel
//! knows it.

use vstd::prelude::*;
use vstd::string::*;

use crate::glob::glob_matches;
use crate::inspect::{is_event_name, KernelInspector};
use crate::model::{views, InspectError, KernelView};
use crate::seqs::lemma_first_index;
use crate::text::{
    after_first, before_first, contains_char, find_char, join, lemma_after_first_is_suffix,
    lemma_concat_contains, lemma_joined_once, lemma_skip_contains, lemma_split_at_first,
    occurs_once, skip_chars, strip_prefix,
};

verus! {

/// What the symbol table prepends to the target of an event.
pub open spec fn tracepoint_prefix() -> Seq<char> {
    "__tracepoint_"@
}

/// What type information prepends to the target of an event.
pub open spec fn typedef_prefix() -> Seq<char> {
    "btf_trace_"@
}

/// The group given to an event whose group could not be found.
pub open spec fn unknown_group() -> Seq<char> {
    "unknown:"@
}

/// A traceable kernel symbol. An event is stored under its `group:target`
/// name, a function under its bare name.
#[derive(Clone, Debug, PartialEq, Eq)]
pub enum Symbol {
    Event(String),
    Func(String),
}

/// A symbol as a mathematical value.
pub enum SymbolView {
    Event(Seq<char>),
    Func(Seq<char>),
}

impl View for Symbol {
    type V = SymbolView;

    open spec fn view(&self) -> SymbolView {
        match self {
            Symbol::Event(name) => SymbolView::Event(name@),
            Symbol::Func(name) => SymbolView::Func(name@),
        }
    }
}

/// What was asked to be resolved: a name or an address.
#[derive(Clone, Debug, PartialEq, Eq)]
pub enum Target {
    Name(String),
    Address(u64),
}

/// A target as a mathematical value.
pub enum TargetView {
    Name(Seq<char>),
    Address(u64),
}

impl View for Target {
    type V = TargetView;

    open spec fn view(&self) -> TargetView {
        match self {
            Target::Name(name) => TargetView::Name(name@),
            Target::Address(addr) => TargetView::Address(*addr),
        }
    }
}

/// Why no symbol came out.
#[derive(Clone, Debug, PartialEq, Eq)]
pub enum SymbolError {
    /// The target does not exist or cannot be traced.
    NotTraceable(Target),
    /// No traceable symbol matches the pattern.
    NoMatches(String),
    /// The inspector could not answer.
    Inspection(InspectError),
}

/// An error as a mathematical value.
pub enum SymbolErrorView {
    NotTraceable(TargetView),
    NoMatches(Seq<char>),
    Inspection(InspectError),
}

impl View for SymbolError {
    type V = SymbolErrorView;

    open spec fn view(&self) -> SymbolErrorView {
        match self {
            SymbolError::NotTraceable(target) => SymbolErrorView::NotTraceable(target@),
            SymbolError::NoMatches(pattern) => SymbolErrorView::NoMatches(pattern@),
            SymbolError::Inspection(e) => SymbolErrorView::Inspection(*e),
        }
    }
}

/// The outcome of a resolution, as a mathematical value.
pub open spec fn resolution_view(r: Result<Symbol, SymbolError>) -> Result<
    SymbolView,
    SymbolErrorView,
> {
    match r {
        Ok(symbol) => Ok(symbol@),
        Err(e) => Err(e@),
    }
}

/// The views of a list of symbols.
pub open spec fn symbol_views(list: Seq<Symbol>) -> Seq<SymbolView> {
    list.map_values(|s: Symbol| s@)
}

/// The outcome of a bulk resolution, as a mathematical value.
pub open spec fn matching_view(r: Result<Vec<Symbol>, SymbolError>) -> Result<
    Seq<SymbolView>,
    SymbolErrorView,
> {
    match r {
        Ok(symbols) => Ok(symbol_views(symbols@)),
        Err(e) => Err(e@),
    }
}

impl SymbolView {
    /// The name the symbol is stored under.
    pub open spec fn name(self) -> Seq<char> {
        match self {
            SymbolView::Event(name) => name,
            SymbolView::Func(name) => name,
        }
    }

    /// An event is well formed when its name holds exactly one `:`; a function
    /// always is. Every symbol that comes out of a resolution is, but for an
    /// event that was found under a name without a `:`.
    pub open spec fn well_formed(self) -> bool {
        self is Event ==> occurs_once(self.name(), ':')
    }

    /// Whether the symbol has the names a probe needs: an event's name holds
    /// a `:`. A well-formed symbol has them.
    pub open spec fn attachable(self) -> bool {
        self is Event ==> self.name().contains(':')
    }

    /// The name a probe attaches to: for an event what follows the first `:`.
    pub open spec fn attach_name(self) -> Seq<char> {
        match self {
            SymbolView::Event(name) => after_first(name, ':'),
            SymbolView::Func(name) => name,
        }
    }

    /// The name the symbol table knows the symbol by.
    pub open spec fn addr_name(self) -> Seq<char> {
        match self {
            SymbolView::Event(_) => tracepoint_prefix() + self.attach_name(),
            SymbolView::Func(name) => name,
        }
    }

    /// The name type information knows the symbol's arguments by.
    pub open spec fn typedef_name(self) -> Seq<char> {
        match self {
            SymbolView::Event(_) => typedef_prefix() + self.attach_name(),
            SymbolView::Func(name) => name,
        }
    }
}

/// The kind of symbol that the form of `name` alone suggests: an event where
/// it holds a `:`, an event under the rest of the name where it begins with
/// the symbol table's prefix for events, a function otherwise.
pub open spec fn classify(name: Seq<char>) -> SymbolView {
    if name.contains(':') {
        SymbolView::Event(name)
    } else if tracepoint_prefix().is_prefix_of(name) {
        SymbolView::Event(name.skip(tracepoint_prefix().len() as int))
    } else {
        SymbolView::Func(name)
    }
}

/// The symbol-table name that stands for `name` when nothing better than the
/// symbol table is available.
pub open spec fn table_name(name: Seq<char>) -> Seq<char> {
    if name.contains(':') {
        tracepoint_prefix() + after_first(name, ':')
    } else {
        name
    }
}

/// What `name` resolves to. A listed event is an event and a listed function
/// a function. Where both lists are available and neither holds the name, it
/// is not traceable. Otherwise the symbol table decides whether the name
/// exists, and its form decides the kind.
pub open spec fn resolve_name(k: KernelView, name: Seq<char>) -> Result<
    SymbolView,
    SymbolErrorView,
> {
    if k.event_traceable(name) == Some(true) {
        Ok(SymbolView::Event(name))
    } else if k.function_traceable(name) == Some(true) {
        Ok(SymbolView::Func(name))
    } else if k.event_traceable(name) is Some && k.function_traceable(name) is Some {
        Err(SymbolErrorView::NotTraceable(TargetView::Name(name)))
    } else if k.symbol_addr(table_name(name)) is None {
        Err(SymbolErrorView::NotTraceable(TargetView::Name(name)))
    } else {
        Ok(classify(name))
    }
}

/// What `addr` resolves to. The symbol at that address is resolved by its
/// name; where that name marks an event, by the full name of the first listed
/// event with that target, and where no such event is listed, it is an event
/// of unknown group.
pub open spec fn resolve_addr(k: KernelView, addr: u64) -> Result<SymbolView, SymbolErrorView> {
    match k.symbol_name(addr) {
        Some(target) => if tracepoint_prefix().is_prefix_of(target) {
            let stripped = target.skip(tracepoint_prefix().len() as int);
            match k.matching_event(stripped) {
                Some(event) => resolve_name(k, event),
                None => Ok(SymbolView::Event(unknown_group() + stripped)),
            }
        } else {
            resolve_name(k, target)
        },
        None => Err(SymbolErrorView::NotTraceable(TargetView::Address(addr))),
    }
}

/// What a matched function name contributes to a bulk resolution: nothing
/// where it holds a `.` or does not resolve.
pub open spec fn resolve_plain(k: KernelView, name: Seq<char>) -> Option<SymbolView> {
    if name.contains('.') {
        None
    } else {
        match resolve_name(k, name) {
            Ok(symbol) => Some(symbol),
            Err(_) => None,
        }
    }
}

/// What the functions matching `pattern` resolve to, in listing order.
pub open spec fn resolve_matching(k: KernelView, pattern: Seq<char>) -> Result<
    Seq<SymbolView>,
    SymbolErrorView,
> {
    match k.matching_functions(pattern) {
        Ok(names) => {
            let symbols = names.filter_map(|n: Seq<char>| resolve_plain(k, n));
            if symbols.len() == 0 {
                Err(SymbolErrorView::NoMatches(pattern))
            } else {
                Ok(symbols)
            }
        },
        Err(e) => Err(SymbolErrorView::Inspection(e)),
    }
}

impl Symbol {
    /// Makes a symbol from its name, asking the inspector what kind it is.
    /// Where the inspector cannot say, the symbol table and the form of the
    /// name decide, which is a best effort: nothing then confirms that the
    /// symbol can be attached to.
    pub fn from_name(name: &str, inspector: &KernelInspector) -> (r: Result<Symbol, SymbolError>)
        ensures
            resolution_view(r) == resolve_name(inspector@, name@),
            inspector@.event_traceable(name@) == Some(false) && inspector@.function_traceable(name@)
                == Some(false) ==> resolution_view(r) == Err::<SymbolView, SymbolErrorView>(
                SymbolErrorView::NotTraceable(TargetView::Name(name@)),
            ),
            r matches Ok(symbol) ==> symbol@.well_formed() == (symbol@ is Func || name@.contains(
                ':',
            )),
    {
        proof {
            use_type_invariant(inspector);
            if resolve_name(inspector@, name@) is Ok {
                lemma_resolved_event(inspector@, name@);
            }
        }
        let mut listed: bool = false;
        match inspector.is_event_traceable(name) {
            Some(traceable) => {
                listed = true;
                if traceable {
                    return Ok(Symbol::Event(String::from_str(name)));
                }
            },
            None => {},
        }
        match inspector.is_function_traceable(name) {
            Some(traceable) => {
                if traceable {
                    return Ok(Symbol::Func(String::from_str(name)));
                }
            },
            None => {
                listed = false;
            },
        }
        if listed {
            return Err(SymbolError::NotTraceable(Target::Name(String::from_str(name))));
        }
        proof {
            lemma_first_index(name@, ':');
        }
        let in_table: String = match find_char(name, ':') {
            Some(i) => {
                let target: String = skip_chars(name, i + 1);
                join("__tracepoint_", target.as_str())
            },
            None => String::from_str(name),
        };
        if inspector.get_symbol_addr(in_table.as_str()).is_err() {
            return Err(SymbolError::NotTraceable(Target::Name(String::from_str(name))));
        }
        Ok(Self::from_name_no_inspect(name))
    }

    /// Makes a symbol from the form of its name alone. It always gives a
    /// symbol, and nothing confirms that the kernel knows it.
    pub fn from_name_no_inspect(name: &str) -> (r: Symbol)
        ensures
            r@ == classify(name@),
    {
        if contains_char(name, ':') {
            return Symbol::Event(String::from_str(name));
        }
        match strip_prefix(name, "__tracepoint_") {
            Some(rest) => Symbol::Event(rest),
            None => Symbol::Func(String::from_str(name)),
        }
    }

    /// Makes a symbol from its address: the symbol that the symbol table has
    /// there. An event is given under the full name of the first listed event
    /// with its target, or under an unknown group where none is listed: the
    /// address is known to be good.
    pub fn from_addr(addr: u64, inspector: &KernelInspector) -> (r: Result<Symbol, SymbolError>)
        ensures
            resolution_view(r) == resolve_addr(inspector@, addr),
            r matches Ok(symbol) ==> symbol@.well_formed() && inspector@.symbol_addr(
                symbol@.addr_name(),
            ) == Some(addr),
    {
        proof {
            use_type_invariant(inspector);
            if resolve_addr(inspector@, addr) is Ok {
                lemma_resolved_addr(inspector@, addr);
                lemma_resolved_addr_has_address(inspector@, addr);
            }
        }
        let target: String = match inspector.get_symbol_name(addr) {
            Ok(target) => target,
            Err(_) => {
                return Err(SymbolError::NotTraceable(Target::Address(addr)));
            },
        };
        match strip_prefix(target.as_str(), "__tracepoint_") {
            Some(stripped) => match inspector.find_matching_event(stripped.as_str()) {
                Some(event) => Self::from_name(event.as_str(), inspector),
                None => Ok(Symbol::Event(join("unknown:", stripped.as_str()))),
            },
            None => Self::from_name(target.as_str(), inspector),
        }
    }

    /// Whether the symbol is well formed: an event's name holds exactly one `:`.
    pub fn is_well_formed(&self) -> (r: bool)
        ensures
            r == self@.well_formed(),
    {
        match self {
            Symbol::Event(name) => is_event_name(name.as_str()),
            Symbol::Func(_) => true,
        }
    }

    /// Whether the symbol has the names a probe needs: an event's name holds
    /// a `:`.
    pub fn is_attachable(&self) -> (r: bool)
        ensures
            r == self@.attachable(),
    {
        match self {
            Symbol::Event(name) => contains_char(name.as_str(), ':'),
            Symbol::Func(_) => true,
        }
    }

    /// The name the symbol is stored under: `skb:kfree_skb` for an event,
    /// `kfree_skb_reason` for a function.
    pub fn name(&self) -> (r: String)
        ensures
            r@ == self@.name(),
    {
        match self {
            Symbol::Func(name) => name.clone(),
            Symbol::Event(name) => name.clone(),
        }
    }

    /// The name as it is shown: the same as [`Symbol::name`].
    pub fn to_string(&self) -> (r: String)
        ensures
            r@ == self@.name(),
    {
        self.name()
    }

    /// The name a probe attaches to: `kfree_skb` for the event
    /// `skb:kfree_skb`, the name itself for a function.
    pub fn attach_name(&self) -> (r: String)
        requires
            self@.attachable(),
        ensures
            r@ == self@.attach_name(),
    {
        match self {
            Symbol::Func(name) => name.clone(),
            Symbol::Event(name) => {
                proof {
                    lemma_first_index(name@, ':');
                }
                match find_char(name.as_str(), ':') {
                    Some(i) => skip_chars(name.as_str(), i + 1),
                    // Not reached: the name of an attachable event holds a `:`.
                    None => String::new(),
                }
            },
        }
    }

    /// The name the symbol table knows the symbol by:
    /// `__tracepoint_kfree_skb` for the event `skb:kfree_skb`, the name itself
    /// for a function.
    pub fn addr_name(&self) -> (r: String)
        requires
            self@.attachable(),
        ensures
            r@ == self@.addr_name(),
    {
        match self {
            Symbol::Func(name) => name.clone(),
            Symbol::Event(_) => join("__tracepoint_", self.attach_name().as_str()),
        }
    }

    /// The name type information knows the symbol's arguments by:
    /// `btf_trace_kfree_skb` for the event `skb:kfree_skb`, the name itself
    /// for a function.
    pub fn typedef_name(&self) -> (r: String)
        requires
            self@.attachable(),
        ensures
            r@ == self@.typedef_name(),
    {
        match self {
            Symbol::Func(name) => name.clone(),
            Symbol::Event(_) => join("btf_trace_", self.attach_name().as_str()),
        }
    }

    /// The address of the symbol.
    pub fn addr(&self, inspector: &KernelInspector) -> (r: Result<u64, InspectError>)
        requires
            self@.attachable(),
        ensures
            r == match inspector@.symbol_addr(self@.addr_name()) {
                Some(addr) => Ok::<u64, InspectError>(addr),
                None => Err(InspectError::UnknownSymbol),
            },
    {
        inspector.get_symbol_addr(self.addr_name().as_str())
    }

    /// How many arguments the symbol takes.
    pub fn nargs(&self, inspector: &KernelInspector) -> (r: Result<u32, InspectError>)
        requires
            self@.attachable(),
        ensures
            r == inspector@.nargs(self@.typedef_name()),
    {
        inspector.function_nargs(self.typedef_name().as_str())
    }

    /// The position of the first argument of type `parameter_type`, if the
    /// symbol takes one.
    pub fn parameter_offset(&self, parameter_type: &str, inspector: &KernelInspector) -> (r: Result<
        Option<u32>,
        InspectError,
    >)
        requires
            self@.attachable(),
        ensures
            r == inspector@.parameter_offset(self@.typedef_name(), parameter_type@),
    {
        inspector.parameter_offset(self.typedef_name().as_str(), parameter_type)
    }
}

/// Resolves every traceable function that matches the glob `target`. Names
/// that hold a `.` are passed over, and so are names that do not resolve.
pub fn matching_functions_to_symbols(target: &str, inspector: &KernelInspector) -> (r: Result<
    Vec<Symbol>,
    SymbolError,
>)
    ensures
        matching_view(r) == resolve_matching(inspector@, target@),
        r matches Ok(symbols) ==> symbols@.len() > 0 && forall|i: int|
            0 <= i < symbols@.len() ==> (#[trigger] symbols@[i])@.well_formed()
                && !symbols@[i]@.name().contains('.'),
{
    let names: Vec<String> = match inspector.matching_functions(target) {
        Ok(names) => names,
        Err(e) => {
            return Err(SymbolError::Inspection(e));
        },
    };
    let ghost k = inspector@;
    let ghost f = |n: Seq<char>| resolve_plain(k, n);
    let ghost all = views(names@);
    let mut symbols: Vec<Symbol> = Vec::new();
    let mut i: usize = 0;
    proof {
        assert(all.take(0) =~= Seq::empty());
        assert(symbol_views(symbols@) =~= Seq::empty());
    }
    while i < names.len()
        invariant
            i <= names@.len(),
            k == inspector@,
            f == |n: Seq<char>| resolve_plain(k, n),
            all == views(names@),
            symbol_views(symbols@) == all.take(i as int).filter_map(f),
        decreases names@.len() - i,
    {
        let ghost before = symbol_views(symbols@);
        proof {
            all.lemma_filter_map_take_succ(f, i as int);
        }
        if !contains_char(names[i].as_str(), '.') {
            match Symbol::from_name(names[i].as_str(), inspector) {
                Ok(symbol) => {
                    symbols.push(symbol);
                    proof {
                        assert(symbol_views(symbols@) =~= before + seq![symbol@]);
                    }
                },
                Err(_) => {},
            }
        }
        i += 1;
    }
    proof {
        assert(all.take(i as int) =~= all);
    }
    if symbols.len() == 0 {
        return Err(SymbolError::NoMatches(String::from_str(target)));
    }
    proof {
        use_type_invariant(inspector);
        assert forall|i: int| 0 <= i < symbols@.len() implies (#[trigger] symbols@[i])@.well_formed(
        ) && !symbols@[i]@.name().contains('.') by {
            assert(symbol_views(symbols@)[i] == symbols@[i]@);
            lemma_matching_skips_dotted(k, target@, i);
            lemma_matching_well_formed(k, target@, i);
        }
    }
    Ok(symbols)
}

/// A function goes by one name: the name a probe attaches to, the name in the
/// symbol table and the name in type information are the name it is stored
/// under.
pub proof fn lemma_function_names(symbol: SymbolView)
    requires
        symbol is Func,
    ensures
        symbol.well_formed(),
        symbol.attach_name() == symbol.name(),
        symbol.addr_name() == symbol.name(),
        symbol.typedef_name() == symbol.name(),
{
}

/// The name of a well-formed event is its group, a `:` and the name a probe
/// attaches to, and neither part holds a `:`.
pub proof fn lemma_event_names(symbol: SymbolView)
    requires
        symbol is Event,
        symbol.well_formed(),
    ensures
        symbol.name() == before_first(symbol.name(), ':') + seq![':'] + symbol.attach_name(),
        !before_first(symbol.name(), ':').contains(':'),
        !symbol.attach_name().contains(':'),
{
    lemma_split_at_first(symbol.name(), ':');
}

/// A symbol resolved from a name is stored under that name, or under what
/// follows the symbol table's prefix for events in it.
pub proof fn lemma_resolved_name(k: KernelView, name: Seq<char>)
    requires
        resolve_name(k, name) is Ok,
    ensures
        ({
            let symbol = resolve_name(k, name)->Ok_0;
            ||| symbol.name() == name
            ||| (symbol is Event && !name.contains(':') && tracepoint_prefix().is_prefix_of(name)
                && symbol.name() == name.skip(tracepoint_prefix().len() as int))
        }),
{
}

/// Every event that a name resolves to is well formed, unless the name holds
/// no `:`: a name resolved as an event holds exactly one `:`, and the name a
/// probe attaches to is what follows it.
pub proof fn lemma_resolved_event(k: KernelView, name: Seq<char>)
    requires
        k.valid(),
        resolve_name(k, name) is Ok,
    ensures
        resolve_name(k, name)->Ok_0.well_formed() == (resolve_name(k, name)->Ok_0 is Func
            || name.contains(':')),
{
    let symbol = resolve_name(k, name)->Ok_0;
    if symbol is Event {
        if k.event_traceable(name) == Some(true) {
            k.lemma_listed_event(name);
        } else if name.contains(':') {
            let target = after_first(name, ':');
            k.lemma_table_name(tracepoint_prefix() + target);
            if target.contains(':') {
                lemma_concat_contains(tracepoint_prefix(), target, ':');
            }
        } else {
            if symbol.name().contains(':') {
                lemma_skip_contains(name, tracepoint_prefix().len() as int, ':');
            }
        }
    }
}

/// Every symbol that an address resolves to is well formed.
pub proof fn lemma_resolved_addr(k: KernelView, addr: u64)
    requires
        k.valid(),
        resolve_addr(k, addr) is Ok,
    ensures
        resolve_addr(k, addr)->Ok_0.well_formed(),
{
    let target = k.symbol_name(addr).unwrap();
    k.lemma_addr_of_name(addr, target);
    k.lemma_table_name(target);
    if tracepoint_prefix().is_prefix_of(target) {
        let stripped = target.skip(tracepoint_prefix().len() as int);
        if stripped.contains(':') {
            lemma_skip_contains(target, tracepoint_prefix().len() as int, ':');
        }
        match k.matching_event(stripped) {
            Some(event) => {
                k.lemma_matching_event(stripped);
            },
            None => {
                lemma_unknown_group(stripped);
            },
        }
    } else {
        lemma_resolved_event(k, target);
    }
}

/// The symbol that an address resolves to is found at that address.
pub proof fn lemma_resolved_addr_has_address(k: KernelView, addr: u64)
    requires
        k.valid(),
        resolve_addr(k, addr) is Ok,
    ensures
        k.symbol_addr(resolve_addr(k, addr)->Ok_0.addr_name()) == Some(addr),
{
    let target = k.symbol_name(addr).unwrap();
    k.lemma_addr_of_name(addr, target);
    k.lemma_table_name(target);
    if tracepoint_prefix().is_prefix_of(target) {
        let stripped = target.skip(tracepoint_prefix().len() as int);
        assert(target =~= tracepoint_prefix() + stripped);
        if stripped.contains(':') {
            lemma_skip_contains(target, tracepoint_prefix().len() as int, ':');
        }
        match k.matching_event(stripped) {
            Some(event) => {
                k.lemma_matching_event(stripped);
                lemma_after_first_is_suffix(event, stripped, ':');
            },
            None => {
                lemma_unknown_group(stripped);
            },
        }
    } else {
        if k.event_traceable(target) == Some(true) {
            k.lemma_listed_event(target);
        }
    }
}

/// An event of unknown group is well formed, and a probe attaches to it by
/// its target.
pub proof fn lemma_unknown_group(target: Seq<char>)
    requires
        !target.contains(':'),
    ensures
        SymbolView::Event(unknown_group() + target).well_formed(),
        SymbolView::Event(unknown_group() + target).attach_name() == target,
{
    reveal_strlit("unknown:");
    let group = unknown_group().drop_last();
    assert(unknown_group() + target =~= group + seq![':'] + target);
    lemma_joined_once(group, target, ':');
}

/// Through the address and back: where a name resolves to a symbol that has
/// the names a probe needs, and the symbol has an address, that address
/// resolves to a symbol that a probe attaches to by the same name. A function
/// whose name begins with the symbol table's prefix for events is left out:
/// its address resolves to an event.
pub proof fn lemma_address_round_trip(k: KernelView, name: Seq<char>, addr: u64)
    requires
        k.valid(),
        resolve_name(k, name) is Ok,
        resolve_name(k, name)->Ok_0.attachable(),
        !(resolve_name(k, name)->Ok_0 is Func && tracepoint_prefix().is_prefix_of(name)),
        k.symbol_addr(resolve_name(k, name)->Ok_0.addr_name()) == Some(addr),
    ensures
        resolve_addr(k, addr) is Ok,
        resolve_addr(k, addr)->Ok_0.well_formed(),
        resolve_addr(k, addr)->Ok_0.attach_name() == resolve_name(k, name)->Ok_0.attach_name(),
{
    let symbol = resolve_name(k, name)->Ok_0;
    k.lemma_name_of_addr(symbol.addr_name(), addr);
    lemma_resolved_name(k, name);
    match symbol {
        SymbolView::Func(_) => {},
        SymbolView::Event(event_name) => {
            let target = after_first(event_name, ':');
            let in_table = tracepoint_prefix() + target;
            assert(in_table.subrange(0, tracepoint_prefix().len() as int) =~= tracepoint_prefix());
            assert(in_table.skip(tracepoint_prefix().len() as int) =~= target);
            match k.matching_event(target) {
                Some(event) => {
                    k.lemma_matching_event(target);
                    lemma_after_first_is_suffix(event, target, ':');
                },
                None => {
                    lemma_unknown_group(target);
                },
            }
        },
    }
}

/// Every symbol of a bulk resolution is what a matched function name without
/// a `.` resolves to, and is stored under a name without a `.`.
pub proof fn lemma_matching_skips_dotted(k: KernelView, pattern: Seq<char>, i: int)
    requires
        resolve_matching(k, pattern) is Ok,
        0 <= i < resolve_matching(k, pattern)->Ok_0.len(),
    ensures
        exists|name: Seq<char>|
            #![auto]
            k.matching_functions(pattern)->Ok_0.contains(name) && !name.contains('.')
                && k.function_traceable(name) == Some(true) && resolve_name(k, name) == Ok::<
                SymbolView,
                SymbolErrorView,
            >(resolve_matching(k, pattern)->Ok_0[i]),
        !resolve_matching(k, pattern)->Ok_0[i].name().contains('.'),
{
    let names = k.matching_functions(pattern)->Ok_0;
    let f = |n: Seq<char>| resolve_plain(k, n);
    let symbol = resolve_matching(k, pattern)->Ok_0[i];
    assert(names.filter_map(f).contains(symbol));
    names.lemma_filter_map_contains(f, symbol);
    let name = choose|name: Seq<char>| #[trigger] names.contains(name) && f(name) == Some(symbol);
    lemma_resolved_name(k, name);
    if symbol.name().contains('.') {
        lemma_skip_contains(name, tracepoint_prefix().len() as int, '.');
    }
    k.functions.unwrap().lemma_filter_contains_rev(|g: Seq<char>| glob_matches(pattern, g), name);
}

/// Every symbol of a bulk resolution is well formed.
pub proof fn lemma_matching_well_formed(k: KernelView, pattern: Seq<char>, i: int)
    requires
        k.valid(),
        resolve_matching(k, pattern) is Ok,
        0 <= i < resolve_matching(k, pattern)->Ok_0.len(),
    ensures
        resolve_matching(k, pattern)->Ok_0[i].well_formed(),
{
    lemma_matching_skips_dotted(k, pattern, i);
    let symbol = resolve_matching(k, pattern)->Ok_0[i];
    let name = choose|name: Seq<char>|
        #![auto]
        k.function_traceable(name) == Some(true) && resolve_name(k, name) == Ok::<
            SymbolView,
            SymbolErrorView,
        >(symbol);
    if k.event_traceable(name) == Some(true) {
        k.lemma_listed_event(name);
    }
}

} // verus!
