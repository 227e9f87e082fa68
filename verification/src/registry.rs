//! The interface registry: the memory that carries an interface definition
//! from the place where it is declared to the unions that ask for it.

use crate::interface::{parse_interface, InterfaceDef};
use vstd::hash_map::StringHashMap;
use vstd::prelude::*;
use vstd::string::StringExecFns;

verus! {

/// The records after a definition was registered: its text stands under its
/// name, in place of whatever stood there, and every other name is untouched.
pub open spec fn registered(
    records: Map<Seq<char>, Seq<char>>,
    name: Seq<char>,
    text: Seq<char>,
) -> Map<Seq<char>, Seq<char>> {
    records.insert(name, text)
}

/// The text held under `name`, if there is one.
pub open spec fn looked_up(records: Map<Seq<char>, Seq<char>>, name: Seq<char>) -> Option<
    Seq<char>,
> {
    if records.contains_key(name) {
        Some(records[name])
    } else {
        None
    }
}

/// Interface definitions by name. Its view maps each registered name to the
/// token text of the definition last registered under it.
pub struct Registry {
    records: StringHashMap<String>,
}

impl View for Registry {
    type V = Map<Seq<char>, Seq<char>>;

    closed spec fn view(&self) -> Map<Seq<char>, Seq<char>> {
        self.records@.map_values(|text: String| text@)
    }
}

impl Registry {
    /// A registry that holds nothing.
    pub fn new() -> (registry: Registry)
        ensures
            registry@ == Map::<Seq<char>, Seq<char>>::empty(),
    {
        let registry = Registry { records: StringHashMap::new() };
        registry
    }

    /// Stores `text`, the definition as it was written, under the name of
    /// `definition`, over any earlier record of that name, and hands the
    /// text back unchanged.
    pub fn register(&mut self, definition: &InterfaceDef, text: &str) -> (stored: String)
        ensures
            final(self)@ == registered(old(self)@, definition.name@, text@),
            stored@ == text@,
    {
        self.records.insert(definition.name.clone(), String::from_str(text));
        String::from_str(text)
    }

    /// The text registered under `name`, or `None` if none ever was.
    pub fn lookup(&self, name: &str) -> (text: Option<String>)
        ensures
            text.deep_view() == looked_up(self@, name@),
    {
        match self.records.get(name) {
            Some(text) => Some(text.clone()),
            None => None,
        }
    }
}

/// Captures an interface declaration: reads the text as a trait definition
/// and registers the text, as it stands, under the trait's name. Which texts
/// read as a trait, and under which name, is the outside parser's to say:
/// where it reads none, the registry is untouched and nothing is returned;
/// where it reads one, the text is returned unchanged and the registry holds
/// it under the one name, with every other name untouched.
pub fn enum_wrap_impl2(registry: &mut Registry, definition: &str) -> (text: Option<String>)
    ensures
        match text {
            Some(stored) => stored@ == definition@ && exists|name: Seq<char>|
                final(registry)@ == #[trigger] registered(old(registry)@, name, definition@),
            None => final(registry)@ == old(registry)@,
        },
{
    match parse_interface(definition) {
        Some(def) => Some(registry.register(&def, definition)),
        None => None,
    }
}

/// Registering twice under one name leaves the second definition only: the
/// registry is what it would be had the first never been registered, and a
/// lookup of the name finds the second text.
pub proof fn reregistration_keeps_the_second(
    records: Map<Seq<char>, Seq<char>>,
    name: Seq<char>,
    first: Seq<char>,
    second: Seq<char>,
)
    ensures
        registered(registered(records, name, first), name, second) == registered(
            records,
            name,
            second,
        ),
        looked_up(registered(registered(records, name, first), name, second), name) == Some(
            second,
        ),
{
}

/// A registration changes what is found under the registered name and under
/// no other.
pub proof fn registration_is_local(
    records: Map<Seq<char>, Seq<char>>,
    name: Seq<char>,
    text: Seq<char>,
    other: Seq<char>,
)
    ensures
        looked_up(registered(records, name, text), name) == Some(text),
        other != name ==> looked_up(registered(records, name, text), other) == looked_up(
            records,
            other,
        ),
{
}

/// Nothing is found in a registry in which nothing was registered.
pub proof fn lookup_in_empty_registry(name: Seq<char>)
    ensures
        looked_up(Map::empty(), name) is None,
{
}

} // verus!
