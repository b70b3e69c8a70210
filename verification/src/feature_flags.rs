//! Local-first feature gates read from JSON configuration, with project
//! overrides laid over a base configuration.
use vstd::prelude::*;
use crate::json::{json_get, json_parse, parse_json, JsonValue};
use crate::str_map::StrMap;

verus! {

// ---------------------------------------------------------------------------
// Feature flags
// ---------------------------------------------------------------------------

/// The boolean members of a JSON object, taken in order: a later member of
/// the same name wins, members that are not booleans are skipped.
pub open spec fn bool_members(ms: Seq<(String, JsonValue)>) -> Map<Seq<char>, bool>
    decreases ms.len(),
{
    if ms.len() == 0 {
        Map::empty()
    } else {
        let rest = bool_members(ms.drop_last());
        match ms.last().1 {
            JsonValue::Bool(b) => rest.insert(ms.last().0@, b),
            _ => rest,
        }
    }
}

/// The gates a configuration document sets: the boolean members of its
/// `gates` object, nothing where there is no such object.
pub open spec fn gates_from_json(v: JsonValue) -> Map<Seq<char>, bool> {
    match json_get(v, "gates"@) {
        Some(JsonValue::Object(ms)) => bool_members(ms@),
        _ => Map::empty(),
    }
}

/// The gates a configuration file yields: none when it could not be read
/// or is not JSON.
pub open spec fn config_gates(content: Option<Seq<char>>) -> Map<Seq<char>, bool> {
    match content {
        None => Map::empty(),
        Some(c) => match json_parse(c) {
            Ok(v) => gates_from_json(v),
            Err(_) => Map::empty(),
        },
    }
}

/// The characters of an optional text.
pub open spec fn opt_text(t: Option<&str>) -> Option<Seq<char>> {
    match t {
        Some(s) => Some(s@),
        None => None,
    }
}

/// Whether a map turns on the flag called `name`; flags it lacks are off.
pub open spec fn gate_on(m: Map<Seq<char>, bool>, name: Seq<char>) -> bool {
    m.contains_key(name) && m[name]
}

/// A set of boolean feature gates loaded from JSON configuration.
#[derive(Debug, Clone)]
pub struct FeatureFlags {
    gates: StrMap<bool>,
}

impl View for FeatureFlags {
    type V = Map<Seq<char>, bool>;

    closed spec fn view(&self) -> Map<Seq<char>, bool> {
        self.gates@
    }
}

impl Default for FeatureFlags {
    fn default() -> (f: FeatureFlags)
        ensures
            f@ == Map::<Seq<char>, bool>::empty(),
    {
        FeatureFlags { gates: StrMap::new() }
    }
}

impl FeatureFlags {
    /// The gates of a parsed configuration document of the form
    /// `{ "gates": { "name": true/false, ... } }`.
    pub fn from_json(value: &JsonValue) -> (f: FeatureFlags)
        ensures
            f@ == gates_from_json(*value),
    {
        let mut gates = StrMap::new();
        match value.get("gates") {
            Some(JsonValue::Object(ms)) => {
                let mut i: usize = 0;
                assert(ms@.take(0) =~= Seq::<(String, JsonValue)>::empty());
                while i < ms.len()
                    invariant
                        0 <= i <= ms.len(),
                        gates@ == bool_members(ms@.take(i as int)),
                    decreases ms.len() - i,
                {
                    assert(ms@.take(i + 1).drop_last() =~= ms@.take(i as int));
                    if let Some(b) = ms[i].1.as_bool() {
                        gates.insert(ms[i].0.clone(), b);
                    }
                    i = i + 1;
                }
                assert(ms@.take(ms.len() as int) =~= ms@);
            },
            _ => {},
        }
        FeatureFlags { gates }
    }

    /// The gates of a configuration text; a text that is not JSON sets none.
    pub fn from_json_text(content: &str) -> (f: FeatureFlags)
        ensures
            match json_parse(content@) {
                Ok(v) => f@ == gates_from_json(v),
                Err(_) => f@ == Map::<Seq<char>, bool>::empty(),
            },
    {
        match parse_json(content) {
            Ok(v) => FeatureFlags::from_json(&v),
            Err(_) => FeatureFlags::default(),
        }
    }

    /// The gates of a configuration file, given its text, or `None` where
    /// the file could not be read.
    pub fn from_config_text(content: Option<&str>) -> (f: FeatureFlags)
        ensures
            f@ == config_gates(opt_text(content)),
    {
        match content {
            Some(c) => FeatureFlags::from_json_text(c),
            None => FeatureFlags::default(),
        }
    }

    /// The base configuration with the project overrides laid over it; each
    /// is given by its text, or `None` where there is no such file or it
    /// could not be read.
    pub fn load_with_overrides(base: Option<&str>, overrides: Option<&str>) -> (f: FeatureFlags)
        ensures
            f@ == config_gates(opt_text(base)).union_prefer_right(config_gates(opt_text(overrides))),
    {
        let mut flags = FeatureFlags::from_config_text(base);
        let over = FeatureFlags::from_config_text(overrides);
        flags.apply_overrides(over);
        flags
    }

    /// Lays project overrides over these flags: a gate that both define
    /// takes the override's value.
    pub fn apply_overrides(&mut self, overrides: FeatureFlags)
        ensures
            final(self)@ == old(self)@.union_prefer_right(overrides@),
    {
        self.gates.extend(&overrides.gates);
    }

    /// Whether the flag is set and true.
    pub fn check_gate(&self, name: &str) -> (r: bool)
        ensures
            r == gate_on(self@, name@),
    {
        match self.gates.get(name) {
            Some(b) => *b,
            None => false,
        }
    }

    /// All gates, for display.
    pub fn all_gates(&self) -> (g: &StrMap<bool>)
        ensures
            g@ == self@,
    {
        &self.gates
    }

    /// Whether no gate is loaded.
    pub fn is_empty(&self) -> (r: bool)
        ensures
            r == (self@ == Map::<Seq<char>, bool>::empty()),
    {
        self.gates.is_empty()
    }
}

/// Overrides take precedence: where the overrides define a gate, the
/// merged flags have the override's value; elsewhere the base value.
pub proof fn law_override_wins(
    base: Map<Seq<char>, bool>,
    overrides: Map<Seq<char>, bool>,
    name: Seq<char>,
)
    ensures
        gate_on(base.union_prefer_right(overrides), name) == if overrides.contains_key(name) {
            overrides[name]
        } else {
            gate_on(base, name)
        },
{
}

/// Laying empty overrides over flags changes nothing.
pub proof fn law_empty_overrides_change_nothing(base: Map<Seq<char>, bool>)
    ensures
        base.union_prefer_right(Map::<Seq<char>, bool>::empty()) == base,
{
    assert(base.union_prefer_right(Map::<Seq<char>, bool>::empty()) =~= base);
}

} // verus!
