//! Serialization of the registry index: one canonical pretty-printed
//! document with an `entries` object keyed by lowercase component name.
//! The printer is pinned to a spec rendering and the parser to a spec
//! grammar, as for plans; reading re-registers the entries, so the
//! result is always a well-formed index.

use vstd::prelude::*;

use crate::contracts::{ComponentState, Disposition, PropDef, PropModel, TokenRef, TokenRefModel};
use crate::json::{
    append_json_string, expect, expect_exec, js, parse_string, parse_string_exec, JsonError,
};
use crate::registry::{
    register_step, spec_fold_entries, state_label, EntryModel, RegistryEntry, RegistryIndex,
};
use crate::strutil::{lower_seq, lowercase, str_chars, str_eq};

verus! {

/// The printed form of an optional string: `null` when absent.
pub open spec fn print_optstr(x: Option<Seq<char>>) -> Seq<char> {
    match x {
        Some(t) => js(t),
        None => "null"@,
    }
}

/// Parses an optional string.
pub open spec fn parse_optstr(s: Seq<char>, i: int) -> Option<(Option<Seq<char>>, int)> {
    match expect(s, i, "null"@) {
        Some(j) => Some((None, j)),
        None => match parse_string(s, i) {
            Some((t, j)) => Some((Some(t), j)),
            None => None,
        },
    }
}

/// The printed form of a boolean value.
pub open spec fn print_boolean(b: bool) -> Seq<char> {
    if b {
        "true"@
    } else {
        "false"@
    }
}

/// Parses a boolean value.
pub open spec fn parse_boolean(s: Seq<char>, i: int) -> Option<(bool, int)> {
    match expect(s, i, "true"@) {
        Some(j) => Some((true, j)),
        None => match expect(s, i, "false"@) {
            Some(j) => Some((false, j)),
            None => None,
        },
    }
}

/// The printed form of one string array element.
pub open spec fn print_str_item(x: Seq<char>) -> Seq<char> {
    "    "@ + js(x)
}

/// Parses one string array element.
pub open spec fn parse_str_item(s: Seq<char>, i: int) -> Option<(Seq<char>, int)> {
    match expect(s, i, "    "@) {
        None => None,
        Some(j) => parse_string(s, j),
    }
}

/// The printed form of one state array element.
pub open spec fn print_state_item(x: ComponentState) -> Seq<char> {
    "    "@ + js(state_label(x))
}

/// Parses one state array element.
pub open spec fn parse_state_item(s: Seq<char>, i: int) -> Option<(ComponentState, int)> {
    match expect(s, i, "    "@) {
        None => None,
        Some(j) => match parse_string(s, j) {
            None => None,
            Some((x, j2)) => {
                if x == "hover"@ {
                    Some((ComponentState::Hover, j2))
                } else if x == "active"@ {
                    Some((ComponentState::Active, j2))
                } else if x == "focused"@ {
                    Some((ComponentState::Focused, j2))
                } else if x == "disabled"@ {
                    Some((ComponentState::Disabled, j2))
                } else if x == "error"@ {
                    Some((ComponentState::Error, j2))
                } else if x == "open"@ {
                    Some((ComponentState::Open, j2))
                } else if x == "selected"@ {
                    Some((ComponentState::Selected, j2))
                } else if x == "readonly"@ {
                    Some((ComponentState::Readonly, j2))
                } else {
                    None
                }
            },
        },
    }
}

/// The printed form of one prop definition, as an array element.
pub open spec fn print_prop_item(p: PropModel) -> Seq<char> {
    "    {\n      \"name\": "@ + js(p.name) + ",\n      \"prop_type\": "@ + js(p.prop_type)
        + ",\n      \"required\": "@ + print_boolean(p.required)
        + ",\n      \"default_value\": "@ + print_optstr(p.default_value)
        + ",\n      \"description\": "@ + js(p.description) + "\n    }"@
}

/// Parses the first half of a prop definition: name, type, required.
pub open spec fn parse_prop_head(s: Seq<char>, i: int) -> Option<
    ((Seq<char>, Seq<char>, bool), int),
> {
    match expect(s, i, "    {\n      \"name\": "@) {
        None => None,
        Some(j0) => match parse_string(s, j0) {
            None => None,
            Some((name, j1)) => match expect(s, j1, ",\n      \"prop_type\": "@) {
                None => None,
                Some(j2) => match parse_string(s, j2) {
                    None => None,
                    Some((prop_type, j3)) => match expect(s, j3, ",\n      \"required\": "@) {
                        None => None,
                        Some(j4) => match parse_boolean(s, j4) {
                            None => None,
                            Some((required, j5)) => Some(((name, prop_type, required), j5)),
                        },
                    },
                },
            },
        },
    }
}

/// Parses the second half of a prop definition: default, description.
pub open spec fn parse_prop_tail(s: Seq<char>, i: int) -> Option<
    ((Option<Seq<char>>, Seq<char>), int),
> {
    match expect(s, i, ",\n      \"default_value\": "@) {
        None => None,
        Some(j6) => match parse_optstr(s, j6) {
            None => None,
            Some((default_value, j7)) => match expect(s, j7, ",\n      \"description\": "@) {
                None => None,
                Some(j8) => match parse_string(s, j8) {
                    None => None,
                    Some((description, j9)) => match expect(s, j9, "\n    }"@) {
                        None => None,
                        Some(j10) => Some(((default_value, description), j10)),
                    },
                },
            },
        },
    }
}

/// Parses one prop definition.
pub open spec fn parse_prop_item(s: Seq<char>, i: int) -> Option<(PropModel, int)> {
    match parse_prop_head(s, i) {
        None => None,
        Some(((name, prop_type, required), j)) => match parse_prop_tail(s, j) {
            None => None,
            Some(((default_value, description), j2)) => Some(
                (PropModel { name, prop_type, required, default_value, description }, j2),
            ),
        },
    }
}

/// The printed form of one token dependency, as an array element.
pub open spec fn print_token_item(t: TokenRefModel) -> Seq<char> {
    "    {\n      \"path\": "@ + js(t.path) + ",\n      \"usage\": "@ + js(t.usage) + "\n    }"@
}

/// Parses one token dependency.
pub open spec fn parse_token_item(s: Seq<char>, i: int) -> Option<(TokenRefModel, int)> {
    match expect(s, i, "    {\n      \"path\": "@) {
        None => None,
        Some(j0) => match parse_string(s, j0) {
            None => None,
            Some((path, j1)) => match expect(s, j1, ",\n      \"usage\": "@) {
                None => None,
                Some(j2) => match parse_string(s, j2) {
                    None => None,
                    Some((usage, j3)) => match expect(s, j3, "\n    }"@) {
                        None => None,
                        Some(j4) => Some((TokenRefModel { path, usage }, j4)),
                    },
                },
            },
        },
    }
}

/// The printed items of a string list.
pub open spec fn join_strs(xs: Seq<Seq<char>>) -> Seq<char>
    decreases xs.len(),
{
    if xs.len() == 0 {
        Seq::empty()
    } else if xs.len() == 1 {
        print_str_item(xs[0])
    } else {
        print_str_item(xs[0]) + ",\n"@ + join_strs(xs.drop_first())
    }
}

/// The printed form of a string list.
pub open spec fn print_strs(xs: Seq<Seq<char>>) -> Seq<char> {
    if xs.len() == 0 {
        "[]"@
    } else {
        "[\n"@ + join_strs(xs) + "\n  ]"@
    }
}

/// The printed items of a state list.
pub open spec fn join_states(xs: Seq<ComponentState>) -> Seq<char>
    decreases xs.len(),
{
    if xs.len() == 0 {
        Seq::empty()
    } else if xs.len() == 1 {
        print_state_item(xs[0])
    } else {
        print_state_item(xs[0]) + ",\n"@ + join_states(xs.drop_first())
    }
}

/// The printed form of a state list.
pub open spec fn print_states(xs: Seq<ComponentState>) -> Seq<char> {
    if xs.len() == 0 {
        "[]"@
    } else {
        "[\n"@ + join_states(xs) + "\n  ]"@
    }
}

/// The printed items of a prop list.
pub open spec fn join_props(xs: Seq<PropModel>) -> Seq<char>
    decreases xs.len(),
{
    if xs.len() == 0 {
        Seq::empty()
    } else if xs.len() == 1 {
        print_prop_item(xs[0])
    } else {
        print_prop_item(xs[0]) + ",\n"@ + join_props(xs.drop_first())
    }
}

/// The printed form of a prop list.
pub open spec fn print_props(xs: Seq<PropModel>) -> Seq<char> {
    if xs.len() == 0 {
        "[]"@
    } else {
        "[\n"@ + join_props(xs) + "\n  ]"@
    }
}

/// The printed items of a token-dependency list.
pub open spec fn join_tokens(xs: Seq<TokenRefModel>) -> Seq<char>
    decreases xs.len(),
{
    if xs.len() == 0 {
        Seq::empty()
    } else if xs.len() == 1 {
        print_token_item(xs[0])
    } else {
        print_token_item(xs[0]) + ",\n"@ + join_tokens(xs.drop_first())
    }
}

/// The printed form of a token-dependency list.
pub open spec fn print_tokens(xs: Seq<TokenRefModel>) -> Seq<char> {
    if xs.len() == 0 {
        "[]"@
    } else {
        "[\n"@ + join_tokens(xs) + "\n  ]"@
    }
}

/// The printed form of one registry entry, as a map value.
#[verifier::opaque]
pub open spec fn print_entry(e: EntryModel) -> Seq<char> {
    "{\n      \"name\": "@ + js(e.name) + ",\n      \"version\": "@ + js(e.version)
        + ",\n      \"disposition\": "@ + js(disposition_name(e.disposition))
        + ",\n      \"variants\": "@ + print_strs(e.variants) + ",\n      \"states\": "@
        + print_states(e.states) + ",\n      \"props\": "@ + print_props(e.props)
        + ",\n      \"token_dependencies\": "@ + print_tokens(e.token_dependencies)
        + ",\n      \"required_files\": "@ + print_strs(e.required_files) + "\n    }"@
}

/// The serialized name of a disposition.
pub open spec fn disposition_name(d: Disposition) -> Seq<char> {
    match d {
        Disposition::Reuse => "reuse"@,
        Disposition::Fork => "fork"@,
        Disposition::Rewrite => "rewrite"@,
    }
}

/// Parses a disposition name.
pub open spec fn parse_disposition(s: Seq<char>, i: int) -> Option<(Disposition, int)> {
    match parse_string(s, i) {
        None => None,
        Some((x, j)) => {
            if x == "reuse"@ {
                Some((Disposition::Reuse, j))
            } else if x == "fork"@ {
                Some((Disposition::Fork, j))
            } else if x == "rewrite"@ {
                Some((Disposition::Rewrite, j))
            } else {
                None
            }
        },
    }
}

/// Parses the items of a strs list up to the closing bracket.
pub open spec fn parse_strs_items(s: Seq<char>, i: int, fuel: nat) -> Option<(Seq<Seq<char>>, int)>
    decreases fuel,
{
    if fuel == 0 {
        None
    } else {
        match parse_str_item(s, i) {
            None => None,
            Some((x, j)) => match expect(s, j, ",\n"@) {
                Some(j2) => match parse_strs_items(s, j2, (fuel - 1) as nat) {
                    Some((rest, j3)) => Some((seq![x] + rest, j3)),
                    None => None,
                },
                None => match expect(s, j, "\n  ]"@) {
                    Some(j2) => Some((seq![x], j2)),
                    None => None,
                },
            },
        }
    }
}

/// Parses a strs list.
pub open spec fn parse_strs_list(s: Seq<char>, i: int, fuel: nat) -> Option<(Seq<Seq<char>>, int)> {
    match expect(s, i, "[]"@) {
        Some(j) => Some((Seq::empty(), j)),
        None => match expect(s, i, "[\n"@) {
            Some(j) => parse_strs_items(s, j, fuel),
            None => None,
        },
    }
}

/// Parses the items of a states list up to the closing bracket.
pub open spec fn parse_states_items(s: Seq<char>, i: int, fuel: nat) -> Option<(Seq<ComponentState>, int)>
    decreases fuel,
{
    if fuel == 0 {
        None
    } else {
        match parse_state_item(s, i) {
            None => None,
            Some((x, j)) => match expect(s, j, ",\n"@) {
                Some(j2) => match parse_states_items(s, j2, (fuel - 1) as nat) {
                    Some((rest, j3)) => Some((seq![x] + rest, j3)),
                    None => None,
                },
                None => match expect(s, j, "\n  ]"@) {
                    Some(j2) => Some((seq![x], j2)),
                    None => None,
                },
            },
        }
    }
}

/// Parses a states list.
pub open spec fn parse_states_list(s: Seq<char>, i: int, fuel: nat) -> Option<(Seq<ComponentState>, int)> {
    match expect(s, i, "[]"@) {
        Some(j) => Some((Seq::empty(), j)),
        None => match expect(s, i, "[\n"@) {
            Some(j) => parse_states_items(s, j, fuel),
            None => None,
        },
    }
}

/// Parses the items of a props list up to the closing bracket.
pub open spec fn parse_props_items(s: Seq<char>, i: int, fuel: nat) -> Option<(Seq<PropModel>, int)>
    decreases fuel,
{
    if fuel == 0 {
        None
    } else {
        match parse_prop_item(s, i) {
            None => None,
            Some((x, j)) => match expect(s, j, ",\n"@) {
                Some(j2) => match parse_props_items(s, j2, (fuel - 1) as nat) {
                    Some((rest, j3)) => Some((seq![x] + rest, j3)),
                    None => None,
                },
                None => match expect(s, j, "\n  ]"@) {
                    Some(j2) => Some((seq![x], j2)),
                    None => None,
                },
            },
        }
    }
}

/// Parses a props list.
pub open spec fn parse_props_list(s: Seq<char>, i: int, fuel: nat) -> Option<(Seq<PropModel>, int)> {
    match expect(s, i, "[]"@) {
        Some(j) => Some((Seq::empty(), j)),
        None => match expect(s, i, "[\n"@) {
            Some(j) => parse_props_items(s, j, fuel),
            None => None,
        },
    }
}

/// Parses the items of a tokens list up to the closing bracket.
pub open spec fn parse_tokens_items(s: Seq<char>, i: int, fuel: nat) -> Option<(Seq<TokenRefModel>, int)>
    decreases fuel,
{
    if fuel == 0 {
        None
    } else {
        match parse_token_item(s, i) {
            None => None,
            Some((x, j)) => match expect(s, j, ",\n"@) {
                Some(j2) => match parse_tokens_items(s, j2, (fuel - 1) as nat) {
                    Some((rest, j3)) => Some((seq![x] + rest, j3)),
                    None => None,
                },
                None => match expect(s, j, "\n  ]"@) {
                    Some(j2) => Some((seq![x], j2)),
                    None => None,
                },
            },
        }
    }
}

/// Parses a tokens list.
pub open spec fn parse_tokens_list(s: Seq<char>, i: int, fuel: nat) -> Option<(Seq<TokenRefModel>, int)> {
    match expect(s, i, "[]"@) {
        Some(j) => Some((Seq::empty(), j)),
        None => match expect(s, i, "[\n"@) {
            Some(j) => parse_tokens_items(s, j, fuel),
            None => None,
        },
    }
}

/// Parses the front of a registry entry: name through variants.
pub open spec fn parse_entry_front(s: Seq<char>, i: int) -> Option<
    ((Seq<char>, Seq<char>, Disposition, Seq<Seq<char>>), int),
> {
    let fuel = s.len();
    match expect(s, i, "{\n      \"name\": "@) {
        None => None,
        Some(j0) => match parse_string(s, j0) {
            None => None,
            Some((name, j1)) => match expect(s, j1, ",\n      \"version\": "@) {
                None => None,
                Some(j2) => match parse_string(s, j2) {
                    None => None,
                    Some((version, j3)) => match expect(s, j3, ",\n      \"disposition\": "@) {
                        None => None,
                        Some(j4) => match parse_disposition(s, j4) {
                            None => None,
                            Some((disposition, j5)) => match expect(
                                s,
                                j5,
                                ",\n      \"variants\": "@,
                            ) {
                                None => None,
                                Some(j6) => match parse_strs_list(s, j6, fuel) {
                                    None => None,
                                    Some((variants, j7)) => Some(
                                        ((name, version, disposition, variants), j7),
                                    ),
                                },
                            },
                        },
                    },
                },
            },
        },
    }
}

/// Parses states and props of a registry entry.
pub open spec fn parse_entry_b1(s: Seq<char>, i: int) -> Option<
    ((Seq<ComponentState>, Seq<PropModel>), int),
> {
    let fuel = s.len();
    match expect(s, i, ",\n      \"states\": "@) {
        None => None,
        Some(j8) => match parse_states_list(s, j8, fuel) {
            None => None,
            Some((states, j9)) => match expect(s, j9, ",\n      \"props\": "@) {
                None => None,
                Some(j10) => match parse_props_list(s, j10, fuel) {
                    None => None,
                    Some((props, j11)) => Some(((states, props), j11)),
                },
            },
        },
    }
}

/// Parses token dependencies and required files through the close.
pub open spec fn parse_entry_b2(s: Seq<char>, i: int) -> Option<
    ((Seq<TokenRefModel>, Seq<Seq<char>>), int),
> {
    let fuel = s.len();
    match expect(s, i, ",\n      \"token_dependencies\": "@) {
        None => None,
        Some(j12) => match parse_tokens_list(s, j12, fuel) {
            None => None,
            Some((token_dependencies, j13)) => match expect(
                s,
                j13,
                ",\n      \"required_files\": "@,
            ) {
                None => None,
                Some(j14) => match parse_strs_list(s, j14, fuel) {
                    None => None,
                    Some((required_files, j15)) => match expect(s, j15, "\n    }"@) {
                        None => None,
                        Some(j16) => Some(((token_dependencies, required_files), j16)),
                    },
                },
            },
        },
    }
}

/// Parses the back of a registry entry: states through the close.
pub open spec fn parse_entry_back(s: Seq<char>, i: int) -> Option<
    (
        (Seq<ComponentState>, Seq<PropModel>, Seq<TokenRefModel>, Seq<Seq<char>>),
        int,
    ),
> {
    match parse_entry_b1(s, i) {
        None => None,
        Some(((states, props), j)) => match parse_entry_b2(s, j) {
            None => None,
            Some(((token_dependencies, required_files), j2)) => Some(
                ((states, props, token_dependencies, required_files), j2),
            ),
        },
    }
}

/// Parses one registry entry value.
#[verifier::opaque]
pub open spec fn parse_entry(s: Seq<char>, i: int) -> Option<(EntryModel, int)> {
    match parse_entry_front(s, i) {
        None => None,
        Some(((name, version, disposition, variants), j)) => match parse_entry_back(s, j) {
            None => None,
            Some(((states, props, token_dependencies, required_files), j2)) => Some(
                (
                    EntryModel {
                        name,
                        version,
                        disposition,
                        variants,
                        states,
                        props,
                        token_dependencies,
                        required_files,
                    },
                    j2,
                ),
            ),
        },
    }
}

/// The printed form of one entries-map member: the lowercased name as
/// key, then the entry.
pub open spec fn print_entry_member(e: EntryModel) -> Seq<char> {
    "    "@ + js(lower_seq(e.name)) + ": "@ + print_entry(e)
}

/// Parses one entries-map member; the key is read past and the entry
/// is re-keyed by its own name on registration.
pub open spec fn parse_entry_member(s: Seq<char>, i: int) -> Option<(EntryModel, int)> {
    match expect(s, i, "    "@) {
        None => None,
        Some(j0) => match parse_string(s, j0) {
            None => None,
            Some((_key, j1)) => match expect(s, j1, ": "@) {
                None => None,
                Some(j2) => parse_entry(s, j2),
            },
        },
    }
}

/// The printed entries-map members.
pub open spec fn join_entries(xs: Seq<EntryModel>) -> Seq<char>
    decreases xs.len(),
{
    if xs.len() == 0 {
        Seq::empty()
    } else if xs.len() == 1 {
        print_entry_member(xs[0])
    } else {
        print_entry_member(xs[0]) + ",\n"@ + join_entries(xs.drop_first())
    }
}

/// The printed entries map.
pub open spec fn print_entries(xs: Seq<EntryModel>) -> Seq<char> {
    if xs.len() == 0 {
        "{}"@
    } else {
        "{\n"@ + join_entries(xs) + "\n  }"@
    }
}

/// Parses the members of an entries map up to the closing brace.
pub open spec fn parse_entries_items(s: Seq<char>, i: int, fuel: nat) -> Option<
    (Seq<EntryModel>, int),
>
    decreases fuel,
{
    if fuel == 0 {
        None
    } else {
        match parse_entry_member(s, i) {
            None => None,
            Some((x, j)) => match expect(s, j, ",\n"@) {
                Some(j2) => match parse_entries_items(s, j2, (fuel - 1) as nat) {
                    Some((rest, j3)) => Some((seq![x] + rest, j3)),
                    None => None,
                },
                None => match expect(s, j, "\n  }"@) {
                    Some(j2) => Some((seq![x], j2)),
                    None => None,
                },
            },
        }
    }
}

/// Parses an entries map.
pub open spec fn parse_entries(s: Seq<char>, i: int, fuel: nat) -> Option<(Seq<EntryModel>, int)> {
    match expect(s, i, "{}"@) {
        Some(j) => Some((Seq::empty(), j)),
        None => match expect(s, i, "{\n"@) {
            Some(j) => parse_entries_items(s, j, fuel),
            None => None,
        },
    }
}

/// The canonical printed form of a registry index.
pub open spec fn print_registry(xs: Seq<EntryModel>) -> Seq<char> {
    "{\n  \"entries\": "@ + print_entries(xs) + "\n}"@
}

/// Parses a whole registry document; the entire text must be one
/// canonical registry document.
pub open spec fn spec_parse_registry(s: Seq<char>) -> Option<Seq<EntryModel>> {
    match expect(s, 0, "{\n  \"entries\": "@) {
        None => None,
        Some(j0) => match parse_entries(s, j0, s.len()) {
            None => None,
            Some((xs, j1)) => match expect(s, j1, "\n}"@) {
                None => None,
                Some(j2) => if j2 == s.len() {
                    Some(xs)
                } else {
                    None
                },
            },
        },
    }
}

/// Parses one string array element at position `i`.
fn parse_str_item_exec(v: &Vec<char>, i: usize) -> (r: Option<(String, usize)>)
    ensures
        match r {
            Some((x, j)) => parse_str_item(v@, i as int) == Some((x@, j as int)) && j <= v@.len(),
            None => parse_str_item(v@, i as int) is None,
        },
{
    match expect_exec(v, i, "    ") {
        None => None,
        Some(j) => parse_string_exec(v, j),
    }
}

/// Parses one state array element at position `i`.
fn parse_state_item_exec(v: &Vec<char>, i: usize) -> (r: Option<(ComponentState, usize)>)
    ensures
        match r {
            Some((x, j)) => parse_state_item(v@, i as int) == Some((x, j as int)) && j
                <= v@.len(),
            None => parse_state_item(v@, i as int) is None,
        },
{
    let j = match expect_exec(v, i, "    ") {
        Some(j) => j,
        None => {
            return None;
        },
    };
    let (x, j2) = match parse_string_exec(v, j) {
        Some(p) => p,
        None => {
            return None;
        },
    };
    if str_eq(x.as_str(), "hover") {
        Some((ComponentState::Hover, j2))
    } else if str_eq(x.as_str(), "active") {
        Some((ComponentState::Active, j2))
    } else if str_eq(x.as_str(), "focused") {
        Some((ComponentState::Focused, j2))
    } else if str_eq(x.as_str(), "disabled") {
        Some((ComponentState::Disabled, j2))
    } else if str_eq(x.as_str(), "error") {
        Some((ComponentState::Error, j2))
    } else if str_eq(x.as_str(), "open") {
        Some((ComponentState::Open, j2))
    } else if str_eq(x.as_str(), "selected") {
        Some((ComponentState::Selected, j2))
    } else if str_eq(x.as_str(), "readonly") {
        Some((ComponentState::Readonly, j2))
    } else {
        None
    }
}

/// Parses one prop definition at position `i`.
fn parse_prop_item_exec(v: &Vec<char>, i: usize) -> (r: Option<(PropDef, usize)>)
    ensures
        match r {
            Some((x, j)) => parse_prop_item(v@, i as int) == Some((x.deep_view(), j as int)) && j
                <= v@.len(),
            None => parse_prop_item(v@, i as int) is None,
        },
{
    let j0 = match expect_exec(v, i, "    {\n      \"name\": ") {
        Some(j) => j,
        None => {
            return None;
        },
    };
    let (name, j1) = match parse_string_exec(v, j0) {
        Some(p) => p,
        None => {
            return None;
        },
    };
    let j2 = match expect_exec(v, j1, ",\n      \"prop_type\": ") {
        Some(j) => j,
        None => {
            return None;
        },
    };
    let (prop_type, j3) = match parse_string_exec(v, j2) {
        Some(p) => p,
        None => {
            return None;
        },
    };
    let j4 = match expect_exec(v, j3, ",\n      \"required\": ") {
        Some(j) => j,
        None => {
            return None;
        },
    };
    let (required, j5) = match expect_exec(v, j4, "true") {
        Some(j) => (true, j),
        None => {
            match expect_exec(v, j4, "false") {
                Some(j) => (false, j),
                None => {
                    return None;
                },
            }
        },
    };
    let j6 = match expect_exec(v, j5, ",\n      \"default_value\": ") {
        Some(j) => j,
        None => {
            return None;
        },
    };
    let (default_value, j7) = match expect_exec(v, j6, "null") {
        Some(j) => (None, j),
        None => {
            match parse_string_exec(v, j6) {
                Some((t, j)) => (Some(t), j),
                None => {
                    return None;
                },
            }
        },
    };
    let j8 = match expect_exec(v, j7, ",\n      \"description\": ") {
        Some(j) => j,
        None => {
            return None;
        },
    };
    let (description, j9) = match parse_string_exec(v, j8) {
        Some(p) => p,
        None => {
            return None;
        },
    };
    let j10 = match expect_exec(v, j9, "\n    }") {
        Some(j) => j,
        None => {
            return None;
        },
    };
    Some((PropDef { name, prop_type, required, default_value, description }, j10))
}

/// Parses one token dependency at position `i`.
fn parse_token_item_exec(v: &Vec<char>, i: usize) -> (r: Option<(TokenRef, usize)>)
    ensures
        match r {
            Some((x, j)) => parse_token_item(v@, i as int) == Some((x.deep_view(), j as int))
                && j <= v@.len(),
            None => parse_token_item(v@, i as int) is None,
        },
{
    let j0 = match expect_exec(v, i, "    {\n      \"path\": ") {
        Some(j) => j,
        None => {
            return None;
        },
    };
    let (path, j1) = match parse_string_exec(v, j0) {
        Some(p) => p,
        None => {
            return None;
        },
    };
    let j2 = match expect_exec(v, j1, ",\n      \"usage\": ") {
        Some(j) => j,
        None => {
            return None;
        },
    };
    let (usage, j3) = match parse_string_exec(v, j2) {
        Some(p) => p,
        None => {
            return None;
        },
    };
    let j4 = match expect_exec(v, j3, "\n    }") {
        Some(j) => j,
        None => {
            return None;
        },
    };
    Some((TokenRef { path, usage }, j4))
}

/// Parses the items of a strs list at position `i`.
fn parse_strs_items_exec(v: &Vec<char>, i: usize, fuel: usize) -> (r: Option<(Vec<String>, usize)>)
    ensures
        match r {
            Some((w, j)) => parse_strs_items(v@, i as int, fuel as nat) == Some(
                (w.deep_view(), j as int),
            ) && j <= v@.len(),
            None => parse_strs_items(v@, i as int, fuel as nat) is None,
        },
    decreases fuel,
{
    if fuel == 0 {
        return None;
    }
    let (x, j) = match parse_str_item_exec(v, i) {
        Some(p) => p,
        None => {
            return None;
        },
    };
    match expect_exec(v, j, ",\n") {
        Some(j2) => {
            match parse_strs_items_exec(v, j2, fuel - 1) {
                Some((rest, j3)) => {
                    let ghost restm = rest.deep_view();
                    let mut out = rest;
                    out.insert(0, x);
                    proof {
                        assert(out.deep_view() =~= seq![out@[0].deep_view()] + restm);
                    }
                    Some((out, j3))
                },
                None => None,
            }
        },
        None => {
            match expect_exec(v, j, "\n  ]") {
                Some(j2) => {
                    let ghost xm = x.deep_view();
                    let mut out: Vec<String> = Vec::new();
                    out.push(x);
                    proof {
                        assert(out.deep_view() =~= seq![xm]);
                    }
                    Some((out, j2))
                },
                None => None,
            }
        },
    }
}

/// Parses a strs list at position `i`.
fn parse_strs_list_exec(v: &Vec<char>, i: usize, fuel: usize) -> (r: Option<(Vec<String>, usize)>)
    ensures
        match r {
            Some((w, j)) => parse_strs_list(v@, i as int, fuel as nat) == Some(
                (w.deep_view(), j as int),
            ) && j <= v@.len(),
            None => parse_strs_list(v@, i as int, fuel as nat) is None,
        },
{
    match expect_exec(v, i, "[]") {
        Some(j) => {
            let out: Vec<String> = Vec::new();
            proof {
                assert(out.deep_view() =~= Seq::<Seq<char>>::empty());
            }
            Some((out, j))
        },
        None => {
            match expect_exec(v, i, "[\n") {
                Some(j) => parse_strs_items_exec(v, j, fuel),
                None => None,
            }
        },
    }
}

/// Parses the items of a states list at position `i`.
fn parse_states_items_exec(v: &Vec<char>, i: usize, fuel: usize) -> (r: Option<(Vec<ComponentState>, usize)>)
    ensures
        match r {
            Some((w, j)) => parse_states_items(v@, i as int, fuel as nat) == Some(
                (w.deep_view(), j as int),
            ) && j <= v@.len(),
            None => parse_states_items(v@, i as int, fuel as nat) is None,
        },
    decreases fuel,
{
    if fuel == 0 {
        return None;
    }
    let (x, j) = match parse_state_item_exec(v, i) {
        Some(p) => p,
        None => {
            return None;
        },
    };
    match expect_exec(v, j, ",\n") {
        Some(j2) => {
            match parse_states_items_exec(v, j2, fuel - 1) {
                Some((rest, j3)) => {
                    let ghost restm = rest.deep_view();
                    let mut out = rest;
                    out.insert(0, x);
                    proof {
                        assert(out.deep_view() =~= seq![out@[0].deep_view()] + restm);
                    }
                    Some((out, j3))
                },
                None => None,
            }
        },
        None => {
            match expect_exec(v, j, "\n  ]") {
                Some(j2) => {
                    let ghost xm = x.deep_view();
                    let mut out: Vec<ComponentState> = Vec::new();
                    out.push(x);
                    proof {
                        assert(out.deep_view() =~= seq![xm]);
                    }
                    Some((out, j2))
                },
                None => None,
            }
        },
    }
}

/// Parses a states list at position `i`.
fn parse_states_list_exec(v: &Vec<char>, i: usize, fuel: usize) -> (r: Option<(Vec<ComponentState>, usize)>)
    ensures
        match r {
            Some((w, j)) => parse_states_list(v@, i as int, fuel as nat) == Some(
                (w.deep_view(), j as int),
            ) && j <= v@.len(),
            None => parse_states_list(v@, i as int, fuel as nat) is None,
        },
{
    match expect_exec(v, i, "[]") {
        Some(j) => {
            let out: Vec<ComponentState> = Vec::new();
            proof {
                assert(out.deep_view() =~= Seq::<ComponentState>::empty());
            }
            Some((out, j))
        },
        None => {
            match expect_exec(v, i, "[\n") {
                Some(j) => parse_states_items_exec(v, j, fuel),
                None => None,
            }
        },
    }
}

/// Parses the items of a props list at position `i`.
fn parse_props_items_exec(v: &Vec<char>, i: usize, fuel: usize) -> (r: Option<(Vec<PropDef>, usize)>)
    ensures
        match r {
            Some((w, j)) => parse_props_items(v@, i as int, fuel as nat) == Some(
                (w.deep_view(), j as int),
            ) && j <= v@.len(),
            None => parse_props_items(v@, i as int, fuel as nat) is None,
        },
    decreases fuel,
{
    if fuel == 0 {
        return None;
    }
    let (x, j) = match parse_prop_item_exec(v, i) {
        Some(p) => p,
        None => {
            return None;
        },
    };
    match expect_exec(v, j, ",\n") {
        Some(j2) => {
            match parse_props_items_exec(v, j2, fuel - 1) {
                Some((rest, j3)) => {
                    let ghost restm = rest.deep_view();
                    let mut out = rest;
                    out.insert(0, x);
                    proof {
                        assert(out.deep_view() =~= seq![out@[0].deep_view()] + restm);
                    }
                    Some((out, j3))
                },
                None => None,
            }
        },
        None => {
            match expect_exec(v, j, "\n  ]") {
                Some(j2) => {
                    let ghost xm = x.deep_view();
                    let mut out: Vec<PropDef> = Vec::new();
                    out.push(x);
                    proof {
                        assert(out.deep_view() =~= seq![xm]);
                    }
                    Some((out, j2))
                },
                None => None,
            }
        },
    }
}

/// Parses a props list at position `i`.
fn parse_props_list_exec(v: &Vec<char>, i: usize, fuel: usize) -> (r: Option<(Vec<PropDef>, usize)>)
    ensures
        match r {
            Some((w, j)) => parse_props_list(v@, i as int, fuel as nat) == Some(
                (w.deep_view(), j as int),
            ) && j <= v@.len(),
            None => parse_props_list(v@, i as int, fuel as nat) is None,
        },
{
    match expect_exec(v, i, "[]") {
        Some(j) => {
            let out: Vec<PropDef> = Vec::new();
            proof {
                assert(out.deep_view() =~= Seq::<PropModel>::empty());
            }
            Some((out, j))
        },
        None => {
            match expect_exec(v, i, "[\n") {
                Some(j) => parse_props_items_exec(v, j, fuel),
                None => None,
            }
        },
    }
}

/// Parses the items of a tokens list at position `i`.
fn parse_tokens_items_exec(v: &Vec<char>, i: usize, fuel: usize) -> (r: Option<(Vec<TokenRef>, usize)>)
    ensures
        match r {
            Some((w, j)) => parse_tokens_items(v@, i as int, fuel as nat) == Some(
                (w.deep_view(), j as int),
            ) && j <= v@.len(),
            None => parse_tokens_items(v@, i as int, fuel as nat) is None,
        },
    decreases fuel,
{
    if fuel == 0 {
        return None;
    }
    let (x, j) = match parse_token_item_exec(v, i) {
        Some(p) => p,
        None => {
            return None;
        },
    };
    match expect_exec(v, j, ",\n") {
        Some(j2) => {
            match parse_tokens_items_exec(v, j2, fuel - 1) {
                Some((rest, j3)) => {
                    let ghost restm = rest.deep_view();
                    let mut out = rest;
                    out.insert(0, x);
                    proof {
                        assert(out.deep_view() =~= seq![out@[0].deep_view()] + restm);
                    }
                    Some((out, j3))
                },
                None => None,
            }
        },
        None => {
            match expect_exec(v, j, "\n  ]") {
                Some(j2) => {
                    let ghost xm = x.deep_view();
                    let mut out: Vec<TokenRef> = Vec::new();
                    out.push(x);
                    proof {
                        assert(out.deep_view() =~= seq![xm]);
                    }
                    Some((out, j2))
                },
                None => None,
            }
        },
    }
}

/// Parses a tokens list at position `i`.
fn parse_tokens_list_exec(v: &Vec<char>, i: usize, fuel: usize) -> (r: Option<(Vec<TokenRef>, usize)>)
    ensures
        match r {
            Some((w, j)) => parse_tokens_list(v@, i as int, fuel as nat) == Some(
                (w.deep_view(), j as int),
            ) && j <= v@.len(),
            None => parse_tokens_list(v@, i as int, fuel as nat) is None,
        },
{
    match expect_exec(v, i, "[]") {
        Some(j) => {
            let out: Vec<TokenRef> = Vec::new();
            proof {
                assert(out.deep_view() =~= Seq::<TokenRefModel>::empty());
            }
            Some((out, j))
        },
        None => {
            match expect_exec(v, i, "[\n") {
                Some(j) => parse_tokens_items_exec(v, j, fuel),
                None => None,
            }
        },
    }
}

/// Parses one registry entry value at position `i`.
fn parse_entry_exec(v: &Vec<char>, i: usize) -> (r: Option<(RegistryEntry, usize)>)
    ensures
        match r {
            Some((e, j)) => parse_entry(v@, i as int) == Some((e.deep_view(), j as int)) && j
                <= v@.len(),
            None => parse_entry(v@, i as int) is None,
        },
{
    proof {
        reveal(crate::registry_codec::parse_entry);
    }
    let fuel = v.len();
    let j0 = match expect_exec(v, i, "{\n      \"name\": ") {
        Some(j) => j,
        None => {
            return None;
        },
    };
    let (name, j1) = match parse_string_exec(v, j0) {
        Some(p) => p,
        None => {
            return None;
        },
    };
    let j2 = match expect_exec(v, j1, ",\n      \"version\": ") {
        Some(j) => j,
        None => {
            return None;
        },
    };
    let (version, j3) = match parse_string_exec(v, j2) {
        Some(p) => p,
        None => {
            return None;
        },
    };
    let j4 = match expect_exec(v, j3, ",\n      \"disposition\": ") {
        Some(j) => j,
        None => {
            return None;
        },
    };
    let (disposition, j5) = match parse_string_exec(v, j4) {
        Some((x, j)) => {
            if str_eq(x.as_str(), "reuse") {
                (Disposition::Reuse, j)
            } else if str_eq(x.as_str(), "fork") {
                (Disposition::Fork, j)
            } else if str_eq(x.as_str(), "rewrite") {
                (Disposition::Rewrite, j)
            } else {
                return None;
            }
        },
        None => {
            return None;
        },
    };
    let j6 = match expect_exec(v, j5, ",\n      \"variants\": ") {
        Some(j) => j,
        None => {
            return None;
        },
    };
    let (variants, j7) = match parse_strs_list_exec(v, j6, fuel) {
        Some(p) => p,
        None => {
            return None;
        },
    };
    let j8 = match expect_exec(v, j7, ",\n      \"states\": ") {
        Some(j) => j,
        None => {
            return None;
        },
    };
    let (states, j9) = match parse_states_list_exec(v, j8, fuel) {
        Some(p) => p,
        None => {
            return None;
        },
    };
    let j10 = match expect_exec(v, j9, ",\n      \"props\": ") {
        Some(j) => j,
        None => {
            return None;
        },
    };
    let (props, j11) = match parse_props_list_exec(v, j10, fuel) {
        Some(p) => p,
        None => {
            return None;
        },
    };
    let j12 = match expect_exec(v, j11, ",\n      \"token_dependencies\": ") {
        Some(j) => j,
        None => {
            return None;
        },
    };
    let (token_dependencies, j13) = match parse_tokens_list_exec(v, j12, fuel) {
        Some(p) => p,
        None => {
            return None;
        },
    };
    let j14 = match expect_exec(v, j13, ",\n      \"required_files\": ") {
        Some(j) => j,
        None => {
            return None;
        },
    };
    let (required_files, j15) = match parse_strs_list_exec(v, j14, fuel) {
        Some(p) => p,
        None => {
            return None;
        },
    };
    let j16 = match expect_exec(v, j15, "\n    }") {
        Some(j) => j,
        None => {
            return None;
        },
    };
    Some(
        (
            RegistryEntry {
                name,
                version,
                disposition,
                variants,
                states,
                props,
                token_dependencies,
                required_files,
            },
            j16,
        ),
    )
}

/// Parses one entries-map member at position `i`.
fn parse_entry_member_exec(v: &Vec<char>, i: usize) -> (r: Option<(RegistryEntry, usize)>)
    ensures
        match r {
            Some((e, j)) => parse_entry_member(v@, i as int) == Some((e.deep_view(), j as int))
                && j <= v@.len(),
            None => parse_entry_member(v@, i as int) is None,
        },
{
    let j0 = match expect_exec(v, i, "    ") {
        Some(j) => j,
        None => {
            return None;
        },
    };
    let (_key, j1) = match parse_string_exec(v, j0) {
        Some(p) => p,
        None => {
            return None;
        },
    };
    let j2 = match expect_exec(v, j1, ": ") {
        Some(j) => j,
        None => {
            return None;
        },
    };
    parse_entry_exec(v, j2)
}

/// Parses the members of an entries map at position `i`.
fn parse_entries_items_exec(v: &Vec<char>, i: usize, fuel: usize) -> (r: Option<
    (Vec<RegistryEntry>, usize),
>)
    ensures
        match r {
            Some((w, j)) => parse_entries_items(v@, i as int, fuel as nat) == Some(
                (w.deep_view(), j as int),
            ) && j <= v@.len(),
            None => parse_entries_items(v@, i as int, fuel as nat) is None,
        },
    decreases fuel,
{
    if fuel == 0 {
        return None;
    }
    let (x, j) = match parse_entry_member_exec(v, i) {
        Some(p) => p,
        None => {
            return None;
        },
    };
    match expect_exec(v, j, ",\n") {
        Some(j2) => {
            match parse_entries_items_exec(v, j2, fuel - 1) {
                Some((rest, j3)) => {
                    let ghost restm = rest.deep_view();
                    let mut out = rest;
                    out.insert(0, x);
                    proof {
                        assert(out.deep_view() =~= seq![out@[0].deep_view()] + restm);
                    }
                    Some((out, j3))
                },
                None => None,
            }
        },
        None => {
            match expect_exec(v, j, "\n  }") {
                Some(j2) => {
                    let ghost xm = x.deep_view();
                    let mut out: Vec<RegistryEntry> = Vec::new();
                    out.push(x);
                    proof {
                        assert(out.deep_view() =~= seq![xm]);
                    }
                    Some((out, j2))
                },
                None => None,
            }
        },
    }
}

/// Appends a printed string list.
fn append_strs(out: &mut String, v: &Vec<String>)
    ensures
        final(out)@ == old(out)@ + print_strs(v.deep_view()),
{
    if v.len() == 0 {
        out.append("[]");
    } else {
        out.append("[\n");
        append_strs_items(out, v, 0);
        out.append("\n  ]");
        proof {
            assert(v.deep_view().skip(0) =~= v.deep_view());
            assert(out@ =~= old(out)@ + print_strs(v.deep_view()));
        }
    }
}

/// Appends the printed items of a string list, from index `i` on.
fn append_strs_items(out: &mut String, v: &Vec<String>, i: usize)
    requires
        i < v@.len(),
    ensures
        final(out)@ == old(out)@ + join_strs(v.deep_view().skip(i as int)),
    decreases v@.len() - i,
{
    let ghost s = v.deep_view().skip(i as int);
    proof {
        assert(s[0] == v.deep_view()[i as int]);
        assert(s.drop_first() =~= v.deep_view().skip(i + 1));
    }
    out.append("    ");
    append_json_string(out, v[i].as_str());
    if i < v.len() - 1 {
        out.append(",\n");
        append_strs_items(out, v, i + 1);
        assert(out@ =~= old(out)@ + join_strs(s));
    } else {
        assert(s.len() == 1);
        assert(out@ =~= old(out)@ + join_strs(s));
    }
}

/// Appends a state's serialized label.
fn append_state_name(out: &mut String, x: ComponentState)
    ensures
        final(out)@ == old(out)@ + js(state_label(x)),
{
    match x {
        ComponentState::Hover => append_json_string(out, "hover"),
        ComponentState::Active => append_json_string(out, "active"),
        ComponentState::Focused => append_json_string(out, "focused"),
        ComponentState::Disabled => append_json_string(out, "disabled"),
        ComponentState::Error => append_json_string(out, "error"),
        ComponentState::Open => append_json_string(out, "open"),
        ComponentState::Selected => append_json_string(out, "selected"),
        ComponentState::Readonly => append_json_string(out, "readonly"),
    }
}

/// Appends a printed state list.
fn append_states(out: &mut String, v: &Vec<ComponentState>)
    ensures
        final(out)@ == old(out)@ + print_states(v.deep_view()),
{
    if v.len() == 0 {
        out.append("[]");
    } else {
        out.append("[\n");
        append_states_items(out, v, 0);
        out.append("\n  ]");
        proof {
            assert(v.deep_view().skip(0) =~= v.deep_view());
            assert(out@ =~= old(out)@ + print_states(v.deep_view()));
        }
    }
}

/// Appends the printed items of a state list, from index `i` on.
fn append_states_items(out: &mut String, v: &Vec<ComponentState>, i: usize)
    requires
        i < v@.len(),
    ensures
        final(out)@ == old(out)@ + join_states(v.deep_view().skip(i as int)),
    decreases v@.len() - i,
{
    let ghost s = v.deep_view().skip(i as int);
    proof {
        assert(s[0] == v.deep_view()[i as int]);
        assert(s.drop_first() =~= v.deep_view().skip(i + 1));
    }
    out.append("    ");
    append_state_name(out, v[i]);
    if i < v.len() - 1 {
        out.append(",\n");
        append_states_items(out, v, i + 1);
        assert(out@ =~= old(out)@ + join_states(s));
    } else {
        assert(s.len() == 1);
        assert(out@ =~= old(out)@ + join_states(s));
    }
}

/// Appends one printed prop definition.
fn append_prop(out: &mut String, p: &PropDef)
    ensures
        final(out)@ == old(out)@ + print_prop_item(p.deep_view()),
{
    let ghost start = out@;
    out.append("    {\n      \"name\": ");
    append_json_string(out, p.name.as_str());
    out.append(",\n      \"prop_type\": ");
    append_json_string(out, p.prop_type.as_str());
    out.append(",\n      \"required\": ");
    if p.required {
        out.append("true");
    } else {
        out.append("false");
    }
    out.append(",\n      \"default_value\": ");
    match &p.default_value {
        Some(d) => append_json_string(out, d.as_str()),
        None => out.append("null"),
    }
    out.append(",\n      \"description\": ");
    append_json_string(out, p.description.as_str());
    out.append("\n    }");
    assert(out@ =~= start + print_prop_item(p.deep_view()));
}

/// Appends a printed prop list.
fn append_props(out: &mut String, v: &Vec<PropDef>)
    ensures
        final(out)@ == old(out)@ + print_props(v.deep_view()),
{
    if v.len() == 0 {
        out.append("[]");
    } else {
        out.append("[\n");
        append_props_items(out, v, 0);
        out.append("\n  ]");
        proof {
            assert(v.deep_view().skip(0) =~= v.deep_view());
            assert(out@ =~= old(out)@ + print_props(v.deep_view()));
        }
    }
}

/// Appends the printed items of a prop list, from index `i` on.
fn append_props_items(out: &mut String, v: &Vec<PropDef>, i: usize)
    requires
        i < v@.len(),
    ensures
        final(out)@ == old(out)@ + join_props(v.deep_view().skip(i as int)),
    decreases v@.len() - i,
{
    let ghost s = v.deep_view().skip(i as int);
    proof {
        assert(s[0] == v.deep_view()[i as int]);
        assert(s.drop_first() =~= v.deep_view().skip(i + 1));
    }
    append_prop(out, &v[i]);
    if i < v.len() - 1 {
        out.append(",\n");
        append_props_items(out, v, i + 1);
        assert(out@ =~= old(out)@ + join_props(s));
    } else {
        assert(s.len() == 1);
        assert(out@ =~= old(out)@ + join_props(s));
    }
}

/// Appends one printed token dependency.
fn append_token(out: &mut String, t: &TokenRef)
    ensures
        final(out)@ == old(out)@ + print_token_item(t.deep_view()),
{
    let ghost start = out@;
    out.append("    {\n      \"path\": ");
    append_json_string(out, t.path.as_str());
    out.append(",\n      \"usage\": ");
    append_json_string(out, t.usage.as_str());
    out.append("\n    }");
    assert(out@ =~= start + print_token_item(t.deep_view()));
}

/// Appends a printed token-dependency list.
fn append_tokens(out: &mut String, v: &Vec<TokenRef>)
    ensures
        final(out)@ == old(out)@ + print_tokens(v.deep_view()),
{
    if v.len() == 0 {
        out.append("[]");
    } else {
        out.append("[\n");
        append_tokens_items(out, v, 0);
        out.append("\n  ]");
        proof {
            assert(v.deep_view().skip(0) =~= v.deep_view());
            assert(out@ =~= old(out)@ + print_tokens(v.deep_view()));
        }
    }
}

/// Appends the printed items of a token list, from index `i` on.
fn append_tokens_items(out: &mut String, v: &Vec<TokenRef>, i: usize)
    requires
        i < v@.len(),
    ensures
        final(out)@ == old(out)@ + join_tokens(v.deep_view().skip(i as int)),
    decreases v@.len() - i,
{
    let ghost s = v.deep_view().skip(i as int);
    proof {
        assert(s[0] == v.deep_view()[i as int]);
        assert(s.drop_first() =~= v.deep_view().skip(i + 1));
    }
    append_token(out, &v[i]);
    if i < v.len() - 1 {
        out.append(",\n");
        append_tokens_items(out, v, i + 1);
        assert(out@ =~= old(out)@ + join_tokens(s));
    } else {
        assert(s.len() == 1);
        assert(out@ =~= old(out)@ + join_tokens(s));
    }
}

/// Appends one printed entry value.
#[verifier::rlimit(100)]
#[verifier::spinoff_prover]
fn append_entry(out: &mut String, e: &RegistryEntry)
    ensures
        final(out)@ == old(out)@ + print_entry(e.deep_view()),
{
    proof {
        reveal(crate::registry_codec::print_entry);
    }
    let ghost start = out@;
    out.append("{\n      \"name\": ");
    append_json_string(out, e.name.as_str());
    out.append(",\n      \"version\": ");
    append_json_string(out, e.version.as_str());
    out.append(",\n      \"disposition\": ");
    match e.disposition {
        Disposition::Reuse => append_json_string(out, "reuse"),
        Disposition::Fork => append_json_string(out, "fork"),
        Disposition::Rewrite => append_json_string(out, "rewrite"),
    }
    out.append(",\n      \"variants\": ");
    append_strs(out, &e.variants);
    out.append(",\n      \"states\": ");
    append_states(out, &e.states);
    out.append(",\n      \"props\": ");
    append_props(out, &e.props);
    out.append(",\n      \"token_dependencies\": ");
    append_tokens(out, &e.token_dependencies);
    out.append(",\n      \"required_files\": ");
    append_strs(out, &e.required_files);
    out.append("\n    }");
    assert(out@ =~= start + print_entry(e.deep_view()));
}

/// Appends one printed entries-map member.
fn append_entry_member(out: &mut String, e: &RegistryEntry)
    ensures
        final(out)@ == old(out)@ + print_entry_member(e.deep_view()),
{
    let ghost start = out@;
    out.append("    ");
    let key = lowercase(e.name.as_str());
    append_json_string(out, key.as_str());
    out.append(": ");
    append_entry(out, e);
    assert(out@ =~= start + print_entry_member(e.deep_view()));
}

/// Appends the printed entries-map members, from index `i` on.
#[verifier::rlimit(100)]
#[verifier::spinoff_prover]
fn append_entries_items(out: &mut String, v: &Vec<RegistryEntry>, i: usize)
    requires
        i < v@.len(),
    ensures
        final(out)@ == old(out)@ + join_entries(v.deep_view().skip(i as int)),
    decreases v@.len() - i,
{
    let ghost s = v.deep_view().skip(i as int);
    proof {
        assert(s[0] == v.deep_view()[i as int]);
        assert(s.drop_first() =~= v.deep_view().skip(i + 1));
    }
    append_entry_member(out, &v[i]);
    if i < v.len() - 1 {
        out.append(",\n");
        append_entries_items(out, v, i + 1);
        assert(out@ =~= old(out)@ + join_entries(s));
    } else {
        assert(s.len() == 1);
        assert(out@ =~= old(out)@ + join_entries(s));
    }
}

impl RegistryIndex {
    /// Serializes the registry to its canonical pretty-printed form,
    /// entries in registration order, keyed by lowercase name.
    pub fn to_json(&self) -> (r: String)
        ensures
            r@ == print_registry(self.view_entries()),
    {
        let entries = self.snapshot();
        let mut out = String::from_str("{\n  \"entries\": ");
        if entries.len() == 0 {
            out.append("{}");
        } else {
            out.append("{\n");
            append_entries_items(&mut out, &entries, 0);
            out.append("\n  }");
            proof {
                assert(entries.deep_view().skip(0) =~= entries.deep_view());
            }
        }
        out.append("\n}");
        assert(out@ =~= print_registry(self.view_entries()));
        out
    }

    /// Reads a registry back from its canonical serialized form. The
    /// parsed entries are re-registered in document order under their
    /// own lowercased names, so the result is well-formed and the
    /// latest entry per name wins, whatever keys the document carried.
    pub fn from_json(s: &str) -> (r: Result<RegistryIndex, JsonError>)
        ensures
            match r {
                Ok(idx) => idx.wf() && (match spec_parse_registry(s@) {
                    Some(es) => idx.view_entries() == spec_fold_entries(Seq::empty(), es),
                    None => false,
                }),
                Err(_) => spec_parse_registry(s@) is None,
            },
    {
        let v = str_chars(s);
        let fuel = v.len();
        let j0 = match expect_exec(&v, 0, "{\n  \"entries\": ") {
            Some(j) => j,
            None => {
                return Err(registry_error());
            },
        };
        let (entries, j1) = match expect_exec(&v, j0, "{}") {
            Some(j) => {
                let empty_entries: Vec<RegistryEntry> = Vec::new();
                proof {
                    assert(empty_entries.deep_view() =~= Seq::<EntryModel>::empty());
                }
                (empty_entries, j)
            },
            None => {
                let j = match expect_exec(&v, j0, "{\n") {
                    Some(j) => j,
                    None => {
                        return Err(registry_error());
                    },
                };
                match parse_entries_items_exec(&v, j, fuel) {
                    Some(p) => p,
                    None => {
                        return Err(registry_error());
                    },
                }
            },
        };
        let j2 = match expect_exec(&v, j1, "\n}") {
            Some(j) => j,
            None => {
                return Err(registry_error());
            },
        };
        if j2 != v.len() {
            return Err(registry_error());
        }
        Ok(RegistryIndex::from_entries(entries))
    }
}

/// Builds a registry parse error.
fn registry_error() -> (r: JsonError)
    ensures
        r.message@ == "the text is not a canonical registry document"@,
{
    JsonError { message: String::from_str("the text is not a canonical registry document") }
}

/// The serialized state and disposition names are pairwise distinct.
proof fn lemma_reg_names_distinct()
    ensures
        "hover"@ != "active"@ && "hover"@ != "focused"@ && "hover"@ != "disabled"@ && "hover"@
            != "error"@ && "hover"@ != "open"@ && "hover"@ != "selected"@ && "hover"@
            != "readonly"@,
        "active"@ != "focused"@ && "active"@ != "disabled"@ && "active"@ != "error"@ && "active"@
            != "open"@ && "active"@ != "selected"@ && "active"@ != "readonly"@,
        "focused"@ != "disabled"@ && "focused"@ != "error"@ && "focused"@ != "open"@ && "focused"@
            != "selected"@ && "focused"@ != "readonly"@,
        "disabled"@ != "error"@ && "disabled"@ != "open"@ && "disabled"@ != "selected"@
            && "disabled"@ != "readonly"@,
        "error"@ != "open"@ && "error"@ != "selected"@ && "error"@ != "readonly"@,
        "open"@ != "selected"@ && "open"@ != "readonly"@,
        "selected"@ != "readonly"@,
        "reuse"@ != "fork"@ && "reuse"@ != "rewrite"@ && "fork"@ != "rewrite"@,
{
    reveal_strlit("hover");
    reveal_strlit("active");
    reveal_strlit("focused");
    reveal_strlit("disabled");
    reveal_strlit("error");
    reveal_strlit("open");
    reveal_strlit("selected");
    reveal_strlit("readonly");
    reveal_strlit("reuse");
    reveal_strlit("fork");
    reveal_strlit("rewrite");
    assert("hover"@.len() == 5 && "active"@.len() == 6 && "focused"@.len() == 7 && "disabled"@.len()
        == 8 && "error"@.len() == 5 && "open"@.len() == 4 && "selected"@.len() == 8
        && "readonly"@.len() == 8);
    assert("reuse"@.len() == 5 && "fork"@.len() == 4 && "rewrite"@.len() == 7);
    assert("hover"@[0] != "error"@[0]);
    assert("disabled"@[0] != "selected"@[0]);
    assert("disabled"@[0] != "readonly"@[0]);
    assert("selected"@[0] != "readonly"@[0]);
    assert("reuse"@[2] != "rewrite"@[2]);
}

/// Parsing inverts printing for an optional string.
proof fn lemma_parse_optstr_of_print(x: Option<Seq<char>>, pre: Seq<char>, post: Seq<char>)
    ensures
        parse_optstr(pre + print_optstr(x) + post, pre.len() as int) == Some(
            (x, pre.len() as int + print_optstr(x).len()),
        ),
{
    reveal_strlit("null");
    let v = pre + print_optstr(x) + post;
    match x {
        None => {
            crate::json::lemma_expect_of_lit(pre, "null"@, post);
        },
        Some(t) => {
            crate::json::lemma_parse_string_of_js(t, pre, post);
            assert(v[pre.len() as int] == '"');
            if crate::json::lit_at(v, pre.len() as int, "null"@) {
                assert(v.subrange(pre.len() as int, pre.len() as int + 4)[0] == 'n');
                assert(false);
            }
            assert(expect(v, pre.len() as int, "null"@) is None);
        },
    }
}

/// Parsing inverts printing for a boolean.
proof fn lemma_parse_boolean_of_print(b: bool, pre: Seq<char>, post: Seq<char>)
    ensures
        parse_boolean(pre + print_boolean(b) + post, pre.len() as int) == Some(
            (b, pre.len() as int + print_boolean(b).len()),
        ),
{
    reveal_strlit("true");
    reveal_strlit("false");
    let v = pre + print_boolean(b) + post;
    if b {
        crate::json::lemma_expect_of_lit(pre, "true"@, post);
    } else {
        crate::json::lemma_expect_of_lit(pre, "false"@, post);
        assert(v[pre.len() as int] == 'f');
        if crate::json::lit_at(v, pre.len() as int, "true"@) {
            assert(v.subrange(pre.len() as int, pre.len() as int + 4)[0] == 't');
            assert(false);
        }
        assert(expect(v, pre.len() as int, "true"@) is None);
    }
}

/// Parsing inverts printing for one string array element.
proof fn lemma_parse_str_item_of_print(x: Seq<char>, pre: Seq<char>, post: Seq<char>)
    ensures
        parse_str_item(pre + print_str_item(x) + post, pre.len() as int) == Some(
            (x, pre.len() as int + print_str_item(x).len()),
        ),
{
    let l0 = "    "@;
    let v = pre + print_str_item(x) + post;
    assert(v =~= pre + l0 + (js(x) + post));
    crate::json::lemma_expect_of_lit(pre, l0, js(x) + post);
    let p1 = pre + l0;
    assert(v =~= p1 + js(x) + post);
    crate::json::lemma_parse_string_of_js(x, p1, post);
}

/// Parsing inverts printing for one state array element.
#[verifier::rlimit(100)]
#[verifier::spinoff_prover]
proof fn lemma_parse_state_item_of_print(x: ComponentState, pre: Seq<char>, post: Seq<char>)
    ensures
        parse_state_item(pre + print_state_item(x) + post, pre.len() as int) == Some(
            (x, pre.len() as int + print_state_item(x).len()),
        ),
{
    let l0 = "    "@;
    let v = pre + print_state_item(x) + post;
    assert(v =~= pre + l0 + (js(state_label(x)) + post));
    crate::json::lemma_expect_of_lit(pre, l0, js(state_label(x)) + post);
    let p1 = pre + l0;
    assert(v =~= p1 + js(state_label(x)) + post);
    crate::json::lemma_parse_string_of_js(state_label(x), p1, post);
    lemma_reg_names_distinct();
}

/// Parsing inverts printing for a disposition name.
proof fn lemma_parse_disposition_of_print(d: Disposition, pre: Seq<char>, post: Seq<char>)
    ensures
        parse_disposition(pre + js(disposition_name(d)) + post, pre.len() as int) == Some(
            (d, pre.len() as int + js(disposition_name(d)).len()),
        ),
{
    crate::json::lemma_parse_string_of_js(disposition_name(d), pre, post);
    lemma_reg_names_distinct();
}

/// Parsing inverts printing for one token dependency.
#[verifier::rlimit(100)]
#[verifier::spinoff_prover]
proof fn lemma_parse_token_item_of_print(t: TokenRefModel, pre: Seq<char>, post: Seq<char>)
    ensures
        parse_token_item(pre + print_token_item(t) + post, pre.len() as int) == Some(
            (t, pre.len() as int + print_token_item(t).len()),
        ),
{
    let l0 = "    {\n      \"path\": "@;
    let l1 = ",\n      \"usage\": "@;
    let l2 = "\n    }"@;
    let a = js(t.path);
    let b = js(t.usage);
    let v = pre + print_token_item(t) + post;
    let t3 = l2 + post;
    let t2 = b + t3;
    let t1 = l1 + t2;
    assert(v =~= pre + l0 + (a + t1));
    crate::json::lemma_expect_of_lit(pre, l0, a + t1);
    let p1 = pre + l0;
    assert(v =~= p1 + a + t1);
    crate::json::lemma_parse_string_of_js(t.path, p1, t1);
    let p2 = p1 + a;
    assert(v =~= p2 + l1 + t2);
    crate::json::lemma_expect_of_lit(p2, l1, t2);
    let p3 = p2 + l1;
    assert(v =~= p3 + b + t3);
    crate::json::lemma_parse_string_of_js(t.usage, p3, t3);
    let p4 = p3 + b;
    assert(v =~= p4 + l2 + post);
    crate::json::lemma_expect_of_lit(p4, l2, post);
}

/// The first half of a printed prop definition.
pub open spec fn print_prop_head(pm: PropModel) -> Seq<char> {
    "    {\n      \"name\": "@ + js(pm.name) + ",\n      \"prop_type\": "@ + js(pm.prop_type)
        + ",\n      \"required\": "@ + print_boolean(pm.required)
}

/// The second half of a printed prop definition.
pub open spec fn print_prop_tail(pm: PropModel) -> Seq<char> {
    ",\n      \"default_value\": "@ + print_optstr(pm.default_value)
        + ",\n      \"description\": "@ + js(pm.description) + "\n    }"@
}

/// Parsing inverts printing for the first half of a prop definition.
#[verifier::rlimit(100)]
#[verifier::spinoff_prover]
proof fn lemma_parse_prop_head_of_print(pm: PropModel, pre: Seq<char>, post: Seq<char>)
    ensures
        parse_prop_head(pre + print_prop_head(pm) + post, pre.len() as int) == Some(
            ((pm.name, pm.prop_type, pm.required), pre.len() as int + print_prop_head(pm).len()),
        ),
{
    let l0 = "    {\n      \"name\": "@;
    let l1 = ",\n      \"prop_type\": "@;
    let l2 = ",\n      \"required\": "@;
    let a = js(pm.name);
    let b = js(pm.prop_type);
    let c = print_boolean(pm.required);
    let v = pre + print_prop_head(pm) + post;
    let t4 = c + post;
    let t3 = l2 + t4;
    let t2 = b + t3;
    let t1 = l1 + t2;
    assert(v =~= pre + l0 + (a + t1));
    crate::json::lemma_expect_of_lit(pre, l0, a + t1);
    let p1 = pre + l0;
    assert(v =~= p1 + a + t1);
    crate::json::lemma_parse_string_of_js(pm.name, p1, t1);
    let p2 = p1 + a;
    assert(v =~= p2 + l1 + t2);
    crate::json::lemma_expect_of_lit(p2, l1, t2);
    let p3 = p2 + l1;
    assert(v =~= p3 + b + t3);
    crate::json::lemma_parse_string_of_js(pm.prop_type, p3, t3);
    let p4 = p3 + b;
    assert(v =~= p4 + l2 + t4);
    crate::json::lemma_expect_of_lit(p4, l2, t4);
    let p5 = p4 + l2;
    assert(v =~= p5 + c + post);
    lemma_parse_boolean_of_print(pm.required, p5, post);
}

/// Parsing inverts printing for the second half of a prop definition.
#[verifier::rlimit(100)]
#[verifier::spinoff_prover]
proof fn lemma_parse_prop_tail_of_print(pm: PropModel, pre: Seq<char>, post: Seq<char>)
    ensures
        parse_prop_tail(pre + print_prop_tail(pm) + post, pre.len() as int) == Some(
            (
                (pm.default_value, pm.description),
                pre.len() as int + print_prop_tail(pm).len(),
            ),
        ),
{
    let l3 = ",\n      \"default_value\": "@;
    let l4 = ",\n      \"description\": "@;
    let l5 = "\n    }"@;
    let d = print_optstr(pm.default_value);
    let e = js(pm.description);
    let v = pre + print_prop_tail(pm) + post;
    let t9 = l5 + post;
    let t8 = e + t9;
    let t7 = l4 + t8;
    let t6 = d + t7;
    assert(v =~= pre + l3 + t6);
    crate::json::lemma_expect_of_lit(pre, l3, t6);
    let p7 = pre + l3;
    assert(v =~= p7 + d + t7);
    lemma_parse_optstr_of_print(pm.default_value, p7, t7);
    let p8 = p7 + d;
    assert(v =~= p8 + l4 + t8);
    crate::json::lemma_expect_of_lit(p8, l4, t8);
    let p9 = p8 + l4;
    assert(v =~= p9 + e + t9);
    crate::json::lemma_parse_string_of_js(pm.description, p9, t9);
    let p10 = p9 + e;
    assert(v =~= p10 + l5 + post);
    crate::json::lemma_expect_of_lit(p10, l5, post);
}

/// Parsing inverts printing for one prop definition.
#[verifier::rlimit(100)]
#[verifier::spinoff_prover]
proof fn lemma_parse_prop_item_of_print(pm: PropModel, pre: Seq<char>, post: Seq<char>)
    ensures
        parse_prop_item(pre + print_prop_item(pm) + post, pre.len() as int) == Some(
            (pm, pre.len() as int + print_prop_item(pm).len()),
        ),
{
    let v = pre + print_prop_item(pm) + post;
    assert(print_prop_item(pm) =~= print_prop_head(pm) + print_prop_tail(pm));
    assert(v =~= pre + print_prop_head(pm) + (print_prop_tail(pm) + post));
    lemma_parse_prop_head_of_print(pm, pre, print_prop_tail(pm) + post);
    let mid = pre + print_prop_head(pm);
    assert(v =~= mid + print_prop_tail(pm) + post);
    lemma_parse_prop_tail_of_print(pm, mid, post);
}

/// Parsing inverts printing for the items of a strs list.
#[verifier::rlimit(100)]
#[verifier::spinoff_prover]
proof fn lemma_parse_strs_items_of_print(
    xs: Seq<Seq<char>>,
    pre: Seq<char>,
    post: Seq<char>,
    fuel: nat,
)
    requires
        xs.len() >= 1,
        fuel >= xs.len(),
    ensures
        parse_strs_items(pre + (join_strs(xs) + "\n  ]"@) + post, pre.len() as int, fuel) == Some(
            (xs, pre.len() as int + join_strs(xs).len() + "\n  ]"@.len()),
        ),
    decreases xs.len(),
{
    let close = "\n  ]"@;
    let sep = ",\n"@;
    let v = pre + (join_strs(xs) + close) + post;
    reveal_strlit("\n  ]");
    reveal_strlit(",\n");
    if xs.len() == 1 {
        assert(join_strs(xs) == print_str_item(xs[0]));
        assert(v =~= pre + print_str_item(xs[0]) + (close + post));
        lemma_parse_str_item_of_print(xs[0], pre, close + post);
        let p1 = pre + print_str_item(xs[0]);
        assert(v[p1.len() as int] == close[0]);
        assert(close[0] == '\n');
        if crate::json::lit_at(v, p1.len() as int, sep) {
            assert(v.subrange(p1.len() as int, p1.len() as int + 2)[0] == ',');
            assert(false);
        }
        assert(expect(v, p1.len() as int, sep) is None);
        assert(v =~= p1 + close + post);
        crate::json::lemma_expect_of_lit(p1, close, post);
        assert(seq![xs[0]] =~= xs);
    } else {
        let rest = xs.drop_first();
        assert(join_strs(xs) == print_str_item(xs[0]) + sep + join_strs(rest));
        let t2 = join_strs(rest) + close + post;
        assert(v =~= pre + print_str_item(xs[0]) + (sep + t2));
        lemma_parse_str_item_of_print(xs[0], pre, sep + t2);
        let p1 = pre + print_str_item(xs[0]);
        assert(v =~= p1 + sep + t2);
        crate::json::lemma_expect_of_lit(p1, sep, t2);
        let p2 = p1 + sep;
        assert(v =~= p2 + (join_strs(rest) + close) + post);
        lemma_parse_strs_items_of_print(rest, p2, post, (fuel - 1) as nat);
        assert(seq![xs[0]] + rest =~= xs);
    }
}

/// Parsing inverts printing for a strs list.
#[verifier::rlimit(100)]
#[verifier::spinoff_prover]
proof fn lemma_parse_strs_list_of_print(xs: Seq<Seq<char>>, pre: Seq<char>, post: Seq<char>, fuel: nat)
    requires
        fuel >= xs.len(),
    ensures
        parse_strs_list(pre + print_strs(xs) + post, pre.len() as int, fuel) == Some(
            (xs, pre.len() as int + print_strs(xs).len()),
        ),
{
    let v = pre + print_strs(xs) + post;
    reveal_strlit("[]");
    reveal_strlit("[\n");
    if xs.len() == 0 {
        assert(v =~= pre + "[]"@ + post);
        crate::json::lemma_expect_of_lit(pre, "[]"@, post);
        assert(xs =~= Seq::<Seq<char>>::empty());
    } else {
        let close = "\n  ]"@;
        assert(print_strs(xs) == "[\n"@ + join_strs(xs) + close);
        assert(v[pre.len() as int + 1] == "[\n"@[1]);
        if crate::json::lit_at(v, pre.len() as int, "[]"@) {
            assert(v.subrange(pre.len() as int, pre.len() as int + 2)[1] == "[]"@[1]);
            assert(false);
        }
        assert(expect(v, pre.len() as int, "[]"@) is None);
        let t1 = (join_strs(xs) + close) + post;
        assert(v =~= pre + "[\n"@ + t1);
        crate::json::lemma_expect_of_lit(pre, "[\n"@, t1);
        let p1 = pre + "[\n"@;
        assert(v =~= p1 + (join_strs(xs) + close) + post);
        lemma_parse_strs_items_of_print(xs, p1, post, fuel);
    }
}

/// Parsing inverts printing for the items of a states list.
#[verifier::rlimit(100)]
#[verifier::spinoff_prover]
proof fn lemma_parse_states_items_of_print(
    xs: Seq<ComponentState>,
    pre: Seq<char>,
    post: Seq<char>,
    fuel: nat,
)
    requires
        xs.len() >= 1,
        fuel >= xs.len(),
    ensures
        parse_states_items(pre + (join_states(xs) + "\n  ]"@) + post, pre.len() as int, fuel) == Some(
            (xs, pre.len() as int + join_states(xs).len() + "\n  ]"@.len()),
        ),
    decreases xs.len(),
{
    let close = "\n  ]"@;
    let sep = ",\n"@;
    let v = pre + (join_states(xs) + close) + post;
    reveal_strlit("\n  ]");
    reveal_strlit(",\n");
    if xs.len() == 1 {
        assert(join_states(xs) == print_state_item(xs[0]));
        assert(v =~= pre + print_state_item(xs[0]) + (close + post));
        lemma_parse_state_item_of_print(xs[0], pre, close + post);
        let p1 = pre + print_state_item(xs[0]);
        assert(v[p1.len() as int] == close[0]);
        assert(close[0] == '\n');
        if crate::json::lit_at(v, p1.len() as int, sep) {
            assert(v.subrange(p1.len() as int, p1.len() as int + 2)[0] == ',');
            assert(false);
        }
        assert(expect(v, p1.len() as int, sep) is None);
        assert(v =~= p1 + close + post);
        crate::json::lemma_expect_of_lit(p1, close, post);
        assert(seq![xs[0]] =~= xs);
    } else {
        let rest = xs.drop_first();
        assert(join_states(xs) == print_state_item(xs[0]) + sep + join_states(rest));
        let t2 = join_states(rest) + close + post;
        assert(v =~= pre + print_state_item(xs[0]) + (sep + t2));
        lemma_parse_state_item_of_print(xs[0], pre, sep + t2);
        let p1 = pre + print_state_item(xs[0]);
        assert(v =~= p1 + sep + t2);
        crate::json::lemma_expect_of_lit(p1, sep, t2);
        let p2 = p1 + sep;
        assert(v =~= p2 + (join_states(rest) + close) + post);
        lemma_parse_states_items_of_print(rest, p2, post, (fuel - 1) as nat);
        assert(seq![xs[0]] + rest =~= xs);
    }
}

/// Parsing inverts printing for a states list.
#[verifier::rlimit(100)]
#[verifier::spinoff_prover]
proof fn lemma_parse_states_list_of_print(xs: Seq<ComponentState>, pre: Seq<char>, post: Seq<char>, fuel: nat)
    requires
        fuel >= xs.len(),
    ensures
        parse_states_list(pre + print_states(xs) + post, pre.len() as int, fuel) == Some(
            (xs, pre.len() as int + print_states(xs).len()),
        ),
{
    let v = pre + print_states(xs) + post;
    reveal_strlit("[]");
    reveal_strlit("[\n");
    if xs.len() == 0 {
        assert(v =~= pre + "[]"@ + post);
        crate::json::lemma_expect_of_lit(pre, "[]"@, post);
        assert(xs =~= Seq::<ComponentState>::empty());
    } else {
        let close = "\n  ]"@;
        assert(print_states(xs) == "[\n"@ + join_states(xs) + close);
        assert(v[pre.len() as int + 1] == "[\n"@[1]);
        if crate::json::lit_at(v, pre.len() as int, "[]"@) {
            assert(v.subrange(pre.len() as int, pre.len() as int + 2)[1] == "[]"@[1]);
            assert(false);
        }
        assert(expect(v, pre.len() as int, "[]"@) is None);
        let t1 = (join_states(xs) + close) + post;
        assert(v =~= pre + "[\n"@ + t1);
        crate::json::lemma_expect_of_lit(pre, "[\n"@, t1);
        let p1 = pre + "[\n"@;
        assert(v =~= p1 + (join_states(xs) + close) + post);
        lemma_parse_states_items_of_print(xs, p1, post, fuel);
    }
}

/// Parsing inverts printing for the items of a props list.
#[verifier::rlimit(100)]
#[verifier::spinoff_prover]
proof fn lemma_parse_props_items_of_print(
    xs: Seq<PropModel>,
    pre: Seq<char>,
    post: Seq<char>,
    fuel: nat,
)
    requires
        xs.len() >= 1,
        fuel >= xs.len(),
    ensures
        parse_props_items(pre + (join_props(xs) + "\n  ]"@) + post, pre.len() as int, fuel) == Some(
            (xs, pre.len() as int + join_props(xs).len() + "\n  ]"@.len()),
        ),
    decreases xs.len(),
{
    let close = "\n  ]"@;
    let sep = ",\n"@;
    let v = pre + (join_props(xs) + close) + post;
    reveal_strlit("\n  ]");
    reveal_strlit(",\n");
    if xs.len() == 1 {
        assert(join_props(xs) == print_prop_item(xs[0]));
        assert(v =~= pre + print_prop_item(xs[0]) + (close + post));
        lemma_parse_prop_item_of_print(xs[0], pre, close + post);
        let p1 = pre + print_prop_item(xs[0]);
        assert(v[p1.len() as int] == close[0]);
        assert(close[0] == '\n');
        if crate::json::lit_at(v, p1.len() as int, sep) {
            assert(v.subrange(p1.len() as int, p1.len() as int + 2)[0] == ',');
            assert(false);
        }
        assert(expect(v, p1.len() as int, sep) is None);
        assert(v =~= p1 + close + post);
        crate::json::lemma_expect_of_lit(p1, close, post);
        assert(seq![xs[0]] =~= xs);
    } else {
        let rest = xs.drop_first();
        assert(join_props(xs) == print_prop_item(xs[0]) + sep + join_props(rest));
        let t2 = join_props(rest) + close + post;
        assert(v =~= pre + print_prop_item(xs[0]) + (sep + t2));
        lemma_parse_prop_item_of_print(xs[0], pre, sep + t2);
        let p1 = pre + print_prop_item(xs[0]);
        assert(v =~= p1 + sep + t2);
        crate::json::lemma_expect_of_lit(p1, sep, t2);
        let p2 = p1 + sep;
        assert(v =~= p2 + (join_props(rest) + close) + post);
        lemma_parse_props_items_of_print(rest, p2, post, (fuel - 1) as nat);
        assert(seq![xs[0]] + rest =~= xs);
    }
}

/// Parsing inverts printing for a props list.
#[verifier::rlimit(100)]
#[verifier::spinoff_prover]
proof fn lemma_parse_props_list_of_print(xs: Seq<PropModel>, pre: Seq<char>, post: Seq<char>, fuel: nat)
    requires
        fuel >= xs.len(),
    ensures
        parse_props_list(pre + print_props(xs) + post, pre.len() as int, fuel) == Some(
            (xs, pre.len() as int + print_props(xs).len()),
        ),
{
    let v = pre + print_props(xs) + post;
    reveal_strlit("[]");
    reveal_strlit("[\n");
    if xs.len() == 0 {
        assert(v =~= pre + "[]"@ + post);
        crate::json::lemma_expect_of_lit(pre, "[]"@, post);
        assert(xs =~= Seq::<PropModel>::empty());
    } else {
        let close = "\n  ]"@;
        assert(print_props(xs) == "[\n"@ + join_props(xs) + close);
        assert(v[pre.len() as int + 1] == "[\n"@[1]);
        if crate::json::lit_at(v, pre.len() as int, "[]"@) {
            assert(v.subrange(pre.len() as int, pre.len() as int + 2)[1] == "[]"@[1]);
            assert(false);
        }
        assert(expect(v, pre.len() as int, "[]"@) is None);
        let t1 = (join_props(xs) + close) + post;
        assert(v =~= pre + "[\n"@ + t1);
        crate::json::lemma_expect_of_lit(pre, "[\n"@, t1);
        let p1 = pre + "[\n"@;
        assert(v =~= p1 + (join_props(xs) + close) + post);
        lemma_parse_props_items_of_print(xs, p1, post, fuel);
    }
}

/// Parsing inverts printing for the items of a tokens list.
#[verifier::rlimit(100)]
#[verifier::spinoff_prover]
proof fn lemma_parse_tokens_items_of_print(
    xs: Seq<TokenRefModel>,
    pre: Seq<char>,
    post: Seq<char>,
    fuel: nat,
)
    requires
        xs.len() >= 1,
        fuel >= xs.len(),
    ensures
        parse_tokens_items(pre + (join_tokens(xs) + "\n  ]"@) + post, pre.len() as int, fuel) == Some(
            (xs, pre.len() as int + join_tokens(xs).len() + "\n  ]"@.len()),
        ),
    decreases xs.len(),
{
    let close = "\n  ]"@;
    let sep = ",\n"@;
    let v = pre + (join_tokens(xs) + close) + post;
    reveal_strlit("\n  ]");
    reveal_strlit(",\n");
    if xs.len() == 1 {
        assert(join_tokens(xs) == print_token_item(xs[0]));
        assert(v =~= pre + print_token_item(xs[0]) + (close + post));
        lemma_parse_token_item_of_print(xs[0], pre, close + post);
        let p1 = pre + print_token_item(xs[0]);
        assert(v[p1.len() as int] == close[0]);
        assert(close[0] == '\n');
        if crate::json::lit_at(v, p1.len() as int, sep) {
            assert(v.subrange(p1.len() as int, p1.len() as int + 2)[0] == ',');
            assert(false);
        }
        assert(expect(v, p1.len() as int, sep) is None);
        assert(v =~= p1 + close + post);
        crate::json::lemma_expect_of_lit(p1, close, post);
        assert(seq![xs[0]] =~= xs);
    } else {
        let rest = xs.drop_first();
        assert(join_tokens(xs) == print_token_item(xs[0]) + sep + join_tokens(rest));
        let t2 = join_tokens(rest) + close + post;
        assert(v =~= pre + print_token_item(xs[0]) + (sep + t2));
        lemma_parse_token_item_of_print(xs[0], pre, sep + t2);
        let p1 = pre + print_token_item(xs[0]);
        assert(v =~= p1 + sep + t2);
        crate::json::lemma_expect_of_lit(p1, sep, t2);
        let p2 = p1 + sep;
        assert(v =~= p2 + (join_tokens(rest) + close) + post);
        lemma_parse_tokens_items_of_print(rest, p2, post, (fuel - 1) as nat);
        assert(seq![xs[0]] + rest =~= xs);
    }
}

/// Parsing inverts printing for a tokens list.
#[verifier::rlimit(100)]
#[verifier::spinoff_prover]
proof fn lemma_parse_tokens_list_of_print(xs: Seq<TokenRefModel>, pre: Seq<char>, post: Seq<char>, fuel: nat)
    requires
        fuel >= xs.len(),
    ensures
        parse_tokens_list(pre + print_tokens(xs) + post, pre.len() as int, fuel) == Some(
            (xs, pre.len() as int + print_tokens(xs).len()),
        ),
{
    let v = pre + print_tokens(xs) + post;
    reveal_strlit("[]");
    reveal_strlit("[\n");
    if xs.len() == 0 {
        assert(v =~= pre + "[]"@ + post);
        crate::json::lemma_expect_of_lit(pre, "[]"@, post);
        assert(xs =~= Seq::<TokenRefModel>::empty());
    } else {
        let close = "\n  ]"@;
        assert(print_tokens(xs) == "[\n"@ + join_tokens(xs) + close);
        assert(v[pre.len() as int + 1] == "[\n"@[1]);
        if crate::json::lit_at(v, pre.len() as int, "[]"@) {
            assert(v.subrange(pre.len() as int, pre.len() as int + 2)[1] == "[]"@[1]);
            assert(false);
        }
        assert(expect(v, pre.len() as int, "[]"@) is None);
        let t1 = (join_tokens(xs) + close) + post;
        assert(v =~= pre + "[\n"@ + t1);
        crate::json::lemma_expect_of_lit(pre, "[\n"@, t1);
        let p1 = pre + "[\n"@;
        assert(v =~= p1 + (join_tokens(xs) + close) + post);
        lemma_parse_tokens_items_of_print(xs, p1, post, fuel);
    }
}

/// A printed item list is at least as long as the list itself.
proof fn lemma_reg_join_lens(
    vs: Seq<Seq<char>>,
    ss: Seq<ComponentState>,
    ps: Seq<PropModel>,
    ts: Seq<TokenRefModel>,
)
    ensures
        join_strs(vs).len() >= vs.len(),
        join_states(ss).len() >= ss.len(),
        join_props(ps).len() >= ps.len(),
        join_tokens(ts).len() >= ts.len(),
    decreases vs.len() + ss.len() + ps.len() + ts.len(),
{
    reveal_strlit("    ");
    reveal_strlit("    {\n      \"name\": ");
    reveal_strlit("    {\n      \"path\": ");
    if vs.len() > 1 || ss.len() > 1 || ps.len() > 1 || ts.len() > 1 {
        lemma_reg_join_lens(
            if vs.len() > 1 {
                vs.drop_first()
            } else {
                vs
            },
            if ss.len() > 1 {
                ss.drop_first()
            } else {
                ss
            },
            if ps.len() > 1 {
                ps.drop_first()
            } else {
                ps
            },
            if ts.len() > 1 {
                ts.drop_first()
            } else {
                ts
            },
        );
    }
}

/// The front of a printed entry.
pub open spec fn print_entry_front(e: EntryModel) -> Seq<char> {
    "{\n      \"name\": "@ + js(e.name) + ",\n      \"version\": "@ + js(e.version)
        + ",\n      \"disposition\": "@ + js(disposition_name(e.disposition))
        + ",\n      \"variants\": "@ + print_strs(e.variants)
}

/// The back of a printed entry.
pub open spec fn print_entry_back(e: EntryModel) -> Seq<char> {
    ",\n      \"states\": "@ + print_states(e.states) + ",\n      \"props\": "@ + print_props(
        e.props,
    ) + ",\n      \"token_dependencies\": "@ + print_tokens(e.token_dependencies)
        + ",\n      \"required_files\": "@ + print_strs(e.required_files) + "\n    }"@
}

/// Parsing inverts printing for the front of an entry.
#[verifier::rlimit(100)]
#[verifier::spinoff_prover]
proof fn lemma_parse_entry_front_of_print(e: EntryModel, pre: Seq<char>, post: Seq<char>)
    requires
        (pre + print_entry_front(e) + post).len() >= e.variants.len(),
    ensures
        parse_entry_front(pre + print_entry_front(e) + post, pre.len() as int) == Some(
            (
                (e.name, e.version, e.disposition, e.variants),
                pre.len() as int + print_entry_front(e).len(),
            ),
        ),
{
    let l0 = "{\n      \"name\": "@;
    let l1 = ",\n      \"version\": "@;
    let l2 = ",\n      \"disposition\": "@;
    let l3 = ",\n      \"variants\": "@;
    let a = js(e.name);
    let b = js(e.version);
    let c = js(disposition_name(e.disposition));
    let d = print_strs(e.variants);
    let v = pre + print_entry_front(e) + post;
    let fuel = v.len();
    lemma_reg_join_lens(e.variants, Seq::empty(), Seq::empty(), Seq::empty());
    let t7 = d + post;
    let t6 = l3 + t7;
    let t5 = c + t6;
    let t4 = l2 + t5;
    let t3 = b + t4;
    let t2 = l1 + t3;
    let t1 = a + t2;
    assert(v =~= pre + l0 + t1);
    crate::json::lemma_expect_of_lit(pre, l0, t1);
    let p1 = pre + l0;
    assert(v =~= p1 + a + t2);
    crate::json::lemma_parse_string_of_js(e.name, p1, t2);
    let p2 = p1 + a;
    assert(v =~= p2 + l1 + t3);
    crate::json::lemma_expect_of_lit(p2, l1, t3);
    let p3 = p2 + l1;
    assert(v =~= p3 + b + t4);
    crate::json::lemma_parse_string_of_js(e.version, p3, t4);
    let p4 = p3 + b;
    assert(v =~= p4 + l2 + t5);
    crate::json::lemma_expect_of_lit(p4, l2, t5);
    let p5 = p4 + l2;
    assert(v =~= p5 + c + t6);
    lemma_parse_disposition_of_print(e.disposition, p5, t6);
    let p6 = p5 + c;
    assert(v =~= p6 + l3 + t7);
    crate::json::lemma_expect_of_lit(p6, l3, t7);
    let p7 = p6 + l3;
    assert(v =~= p7 + d + post);
    lemma_parse_strs_list_of_print(e.variants, p7, post, fuel);
}

/// The states-and-props part of a printed entry.
pub open spec fn print_entry_b1(e: EntryModel) -> Seq<char> {
    ",\n      \"states\": "@ + print_states(e.states) + ",\n      \"props\": "@ + print_props(
        e.props,
    )
}

/// The tokens-and-files part of a printed entry.
pub open spec fn print_entry_b2(e: EntryModel) -> Seq<char> {
    ",\n      \"token_dependencies\": "@ + print_tokens(e.token_dependencies)
        + ",\n      \"required_files\": "@ + print_strs(e.required_files) + "\n    }"@
}

/// Parsing inverts printing for states and props.
#[verifier::rlimit(100)]
#[verifier::spinoff_prover]
proof fn lemma_parse_entry_b1_of_print(e: EntryModel, pre: Seq<char>, post: Seq<char>)
    requires
        (pre + print_entry_b1(e) + post).len() >= e.states.len(),
        (pre + print_entry_b1(e) + post).len() >= e.props.len(),
    ensures
        parse_entry_b1(pre + print_entry_b1(e) + post, pre.len() as int) == Some(
            ((e.states, e.props), pre.len() as int + print_entry_b1(e).len()),
        ),
{
    let l4 = ",\n      \"states\": "@;
    let l5 = ",\n      \"props\": "@;
    let a = print_states(e.states);
    let b = print_props(e.props);
    let v = pre + print_entry_b1(e) + post;
    let fuel = v.len();
    let t4 = b + post;
    let t3 = l5 + t4;
    let t2 = a + t3;
    assert(v =~= pre + l4 + t2);
    crate::json::lemma_expect_of_lit(pre, l4, t2);
    let p1 = pre + l4;
    assert(v =~= p1 + a + t3);
    lemma_parse_states_list_of_print(e.states, p1, t3, fuel);
    let p2 = p1 + a;
    assert(v =~= p2 + l5 + t4);
    crate::json::lemma_expect_of_lit(p2, l5, t4);
    let p3 = p2 + l5;
    assert(v =~= p3 + b + post);
    lemma_parse_props_list_of_print(e.props, p3, post, fuel);
}

/// Parsing inverts printing for token dependencies and files.
#[verifier::rlimit(100)]
#[verifier::spinoff_prover]
proof fn lemma_parse_entry_b2_of_print(e: EntryModel, pre: Seq<char>, post: Seq<char>)
    requires
        (pre + print_entry_b2(e) + post).len() >= e.token_dependencies.len(),
        (pre + print_entry_b2(e) + post).len() >= e.required_files.len(),
    ensures
        parse_entry_b2(pre + print_entry_b2(e) + post, pre.len() as int) == Some(
            (
                (e.token_dependencies, e.required_files),
                pre.len() as int + print_entry_b2(e).len(),
            ),
        ),
{
    let l6 = ",\n      \"token_dependencies\": "@;
    let l7 = ",\n      \"required_files\": "@;
    let l8 = "\n    }"@;
    let c = print_tokens(e.token_dependencies);
    let d = print_strs(e.required_files);
    let v = pre + print_entry_b2(e) + post;
    let fuel = v.len();
    let t9 = l8 + post;
    let t8 = d + t9;
    let t7 = l7 + t8;
    let t6 = c + t7;
    crate::json::seq_assoc(pre, print_entry_b2(e), post);
    crate::json::seq_assoc(l6 + c + l7 + d, l8, post);
    crate::json::seq_assoc(l6 + c + l7, d, t9);
    crate::json::seq_assoc(l6 + c, l7, t8);
    crate::json::seq_assoc(l6, c, t7);
    assert(v == pre + (l6 + t6));
    crate::json::seq_assoc(pre, l6, t6);
    assert(v == pre + l6 + t6);
    crate::json::lemma_expect_of_lit(pre, l6, t6);
    let p1 = pre + l6;
    crate::json::seq_assoc(p1, c, t7);
    assert(v == p1 + c + t7);
    lemma_parse_tokens_list_of_print(e.token_dependencies, p1, t7, fuel);
    let p2 = p1 + c;
    crate::json::seq_assoc(p2, l7, t8);
    assert(v == p2 + l7 + t8);
    crate::json::lemma_expect_of_lit(p2, l7, t8);
    let p3 = p2 + l7;
    crate::json::seq_assoc(p3, d, t9);
    assert(v == p3 + d + t9);
    lemma_parse_strs_list_of_print(e.required_files, p3, t9, fuel);
    let p4 = p3 + d;
    crate::json::seq_assoc(p4, l8, post);
    assert(v == p4 + l8 + post);
    crate::json::lemma_expect_of_lit(p4, l8, post);
}

/// Parsing inverts printing for the back of an entry.
#[verifier::rlimit(100)]
#[verifier::spinoff_prover]
proof fn lemma_parse_entry_back_of_print(e: EntryModel, pre: Seq<char>, post: Seq<char>)
    requires
        (pre + print_entry_back(e) + post).len() >= e.states.len(),
        (pre + print_entry_back(e) + post).len() >= e.props.len(),
        (pre + print_entry_back(e) + post).len() >= e.token_dependencies.len(),
        (pre + print_entry_back(e) + post).len() >= e.required_files.len(),
    ensures
        parse_entry_back(pre + print_entry_back(e) + post, pre.len() as int) == Some(
            (
                (e.states, e.props, e.token_dependencies, e.required_files),
                pre.len() as int + print_entry_back(e).len(),
            ),
        ),
{
    let v = pre + print_entry_back(e) + post;
    assert(print_entry_back(e) =~= print_entry_b1(e) + print_entry_b2(e));
    assert(v =~= pre + print_entry_b1(e) + (print_entry_b2(e) + post));
    lemma_parse_entry_b1_of_print(e, pre, print_entry_b2(e) + post);
    let mid = pre + print_entry_b1(e);
    assert(v =~= mid + print_entry_b2(e) + post);
    lemma_parse_entry_b2_of_print(e, mid, post);
    assert(parse_entry_b1(v, pre.len() as int) == Some(((e.states, e.props), mid.len() as int)));
    assert(parse_entry_b2(v, mid.len() as int) == Some(
        ((e.token_dependencies, e.required_files), mid.len() as int + print_entry_b2(e).len()),
    ));
}

/// Parsing inverts printing for a whole entry.
#[verifier::rlimit(100)]
#[verifier::spinoff_prover]
proof fn lemma_parse_entry_of_print(e: EntryModel, pre: Seq<char>, post: Seq<char>)
    ensures
        parse_entry(pre + print_entry(e) + post, pre.len() as int) == Some(
            (e, pre.len() as int + print_entry(e).len()),
        ),
{
    reveal(crate::registry_codec::print_entry);
    reveal(crate::registry_codec::parse_entry);
    let v = pre + print_entry(e) + post;
    lemma_reg_join_lens(e.variants, e.states, e.props, e.token_dependencies);
    lemma_reg_join_lens(e.required_files, Seq::empty(), Seq::empty(), Seq::empty());
    assert(print_entry(e) =~= print_entry_front(e) + print_entry_back(e));
    assert(v =~= pre + print_entry_front(e) + (print_entry_back(e) + post));
    lemma_parse_entry_front_of_print(e, pre, print_entry_back(e) + post);
    let mid = pre + print_entry_front(e);
    assert(v =~= mid + print_entry_back(e) + post);
    lemma_parse_entry_back_of_print(e, mid, post);
}

/// Parsing inverts printing for one entries-map member.
#[verifier::rlimit(100)]
#[verifier::spinoff_prover]
proof fn lemma_parse_entry_member_of_print(e: EntryModel, pre: Seq<char>, post: Seq<char>)
    ensures
        parse_entry_member(pre + print_entry_member(e) + post, pre.len() as int) == Some(
            (e, pre.len() as int + print_entry_member(e).len()),
        ),
{
    let l0 = "    "@;
    let l1 = ": "@;
    let k = js(lower_seq(e.name));
    let v = pre + print_entry_member(e) + post;
    let t2 = print_entry(e) + post;
    let t1 = l1 + t2;
    assert(v =~= pre + l0 + (k + t1));
    crate::json::lemma_expect_of_lit(pre, l0, k + t1);
    let p1 = pre + l0;
    assert(v =~= p1 + k + t1);
    crate::json::lemma_parse_string_of_js(lower_seq(e.name), p1, t1);
    let p2 = p1 + k;
    assert(v =~= p2 + l1 + t2);
    crate::json::lemma_expect_of_lit(p2, l1, t2);
    let p3 = p2 + l1;
    assert(v =~= p3 + print_entry(e) + post);
    lemma_parse_entry_of_print(e, p3, post);
}

/// A printed entries map is at least as long as its member count.
proof fn lemma_join_entries_len(xs: Seq<EntryModel>)
    ensures
        join_entries(xs).len() >= xs.len(),
    decreases xs.len(),
{
    reveal_strlit("    ");
    if xs.len() > 1 {
        lemma_join_entries_len(xs.drop_first());
    }
}

/// Parsing inverts printing for the members of an entries map.
#[verifier::rlimit(100)]
#[verifier::spinoff_prover]
proof fn lemma_parse_entries_items_of_print(
    xs: Seq<EntryModel>,
    pre: Seq<char>,
    post: Seq<char>,
    fuel: nat,
)
    requires
        xs.len() >= 1,
        fuel >= xs.len(),
    ensures
        parse_entries_items(pre + (join_entries(xs) + "\n  }"@) + post, pre.len() as int, fuel)
            == Some(
            (xs, pre.len() as int + join_entries(xs).len() + "\n  }"@.len()),
        ),
    decreases xs.len(),
{
    let close = "\n  }"@;
    let sep = ",\n"@;
    let v = pre + (join_entries(xs) + close) + post;
    reveal_strlit("\n  }");
    reveal_strlit(",\n");
    crate::json::seq_assoc(pre, join_entries(xs) + close, post);
    crate::json::seq_assoc(join_entries(xs), close, post);
    if xs.len() == 1 {
        let m = print_entry_member(xs[0]);
        assert(join_entries(xs) == m);
        assert(v == pre + (m + (close + post)));
        crate::json::seq_assoc(pre, m, close + post);
        assert(v == pre + m + (close + post));
        lemma_parse_entry_member_of_print(xs[0], pre, close + post);
        let p1 = pre + m;
        crate::json::seq_assoc(p1, close, post);
        assert(v == p1 + close + post);
        assert(v[p1.len() as int] == close[0]);
        assert(close[0] == '\n');
        if crate::json::lit_at(v, p1.len() as int, sep) {
            assert(v.subrange(p1.len() as int, p1.len() as int + 2)[0] == ',');
            assert(false);
        }
        assert(expect(v, p1.len() as int, sep) is None);
        crate::json::lemma_expect_of_lit(p1, close, post);
        assert(seq![xs[0]] =~= xs);
    } else {
        let rest = xs.drop_first();
        let m = print_entry_member(xs[0]);
        assert(join_entries(xs) == m + sep + join_entries(rest));
        let t3 = (join_entries(rest) + close) + post;
        let t2 = sep + t3;
        crate::json::seq_assoc(m + sep, join_entries(rest), close);
        crate::json::seq_assoc(m, sep, join_entries(rest) + close);
        assert(join_entries(xs) + close == m + (sep + (join_entries(rest) + close)));
        crate::json::seq_assoc(sep, join_entries(rest) + close, post);
        crate::json::seq_assoc(m, sep + (join_entries(rest) + close), post);
        assert(v == pre + (m + t2));
        crate::json::seq_assoc(pre, m, t2);
        assert(v == pre + m + t2);
        lemma_parse_entry_member_of_print(xs[0], pre, t2);
        let p1 = pre + m;
        crate::json::seq_assoc(p1, sep, t3);
        assert(v == p1 + sep + t3);
        crate::json::lemma_expect_of_lit(p1, sep, t3);
        let p2 = p1 + sep;
        assert(v == p2 + (join_entries(rest) + close) + post);
        lemma_parse_entries_items_of_print(rest, p2, post, (fuel - 1) as nat);
        assert(seq![xs[0]] + rest =~= xs);
    }
}

/// Parsing inverts printing for a whole registry document.
#[verifier::rlimit(100)]
#[verifier::spinoff_prover]
pub proof fn lemma_parse_registry_of_print(xs: Seq<EntryModel>)
    ensures
        spec_parse_registry(print_registry(xs)) == Some(xs),
{
    let l0 = "{\n  \"entries\": "@;
    let l1 = "\n}"@;
    let v = print_registry(xs);
    let empty = Seq::<char>::empty();
    reveal_strlit("{}");
    reveal_strlit("{\n");
    lemma_join_entries_len(xs);
    assert(v =~= empty + l0 + (print_entries(xs) + l1));
    crate::json::lemma_expect_of_lit(empty, l0, print_entries(xs) + l1);
    let p1 = empty + l0;
    if xs.len() == 0 {
        assert(print_entries(xs) == "{}"@);
        assert(v =~= p1 + "{}"@ + l1);
        crate::json::lemma_expect_of_lit(p1, "{}"@, l1);
        let p2 = p1 + "{}"@;
        assert(v =~= p2 + l1 + empty);
        crate::json::lemma_expect_of_lit(p2, l1, empty);
        assert(xs =~= Seq::<EntryModel>::empty());
    } else {
        let close = "\n  }"@;
        assert(print_entries(xs) == "{\n"@ + join_entries(xs) + close);
        assert(v[p1.len() as int + 1] == "{\n"@[1]);
        if crate::json::lit_at(v, p1.len() as int, "{}"@) {
            assert(v.subrange(p1.len() as int, p1.len() as int + 2)[1] == "{}"@[1]);
            assert(false);
        }
        assert(expect(v, p1.len() as int, "{}"@) is None);
        let t1 = ((join_entries(xs) + close) + (l1 + empty));
        assert(v =~= p1 + "{\n"@ + t1);
        crate::json::lemma_expect_of_lit(p1, "{\n"@, t1);
        let p2 = p1 + "{\n"@;
        assert(v =~= p2 + (join_entries(xs) + close) + (l1 + empty));
        lemma_parse_entries_items_of_print(xs, p2, l1 + empty, v.len());
        let p3 = p2 + (join_entries(xs) + close);
        assert(v =~= p3 + l1 + empty);
        crate::json::lemma_expect_of_lit(p3, l1, empty);
    }
}

/// Registering entries with pairwise distinct lowercased names simply
/// appends them.
proof fn lemma_fold_entries_identity(acc: Seq<EntryModel>, es: Seq<EntryModel>)
    requires
        forall|i: int, j: int|
            0 <= i < j < acc.len() + es.len() ==> lower_seq((acc + es)[i].name) != lower_seq(
                (acc + es)[j].name,
            ),
    ensures
        spec_fold_entries(acc, es) == acc + es,
    decreases es.len(),
{
    if es.len() == 0 {
        assert(spec_fold_entries(acc, es) =~= acc + es);
    } else {
        let e = es[0];
        let key = lower_seq(e.name);
        assert forall|a: int| 0 <= a < acc.len() implies lower_seq(acc[a].name) != key by {
            assert((acc + es)[a] == acc[a]);
            assert((acc + es)[acc.len() as int] == e);
        }
        crate::registry::lemma_find_entry_absent(acc, key);
        assert(register_step(acc, e) == acc.push(e));
        let acc2 = acc.push(e);
        assert(acc2 + es.drop_first() =~= acc + es);
        lemma_fold_entries_identity(acc2, es.drop_first());
        assert(spec_fold_entries(acc, es) == spec_fold_entries(acc2, es.drop_first()));
        assert(acc2 + es.drop_first() == acc + es);
    }
}

/// For a well-formed registry's entries, the printed document parses
/// back to exactly those entries, and re-registering them reproduces
/// them unchanged.
pub proof fn lemma_registry_round_trip(es: Seq<EntryModel>)
    requires
        forall|i: int, j: int|
            0 <= i < j < es.len() ==> lower_seq(es[i].name) != lower_seq(es[j].name),
    ensures
        spec_parse_registry(print_registry(es)) == Some(es),
        spec_fold_entries(Seq::empty(), es) == es,
{
    lemma_parse_registry_of_print(es);
    let empty = Seq::<EntryModel>::empty();
    assert(empty + es =~= es);
    assert forall|i: int, j: int|
        0 <= i < j < empty.len() + es.len() implies lower_seq((empty + es)[i].name) != lower_seq(
        (empty + es)[j].name,
    ) by {
        assert((empty + es)[i] == es[i] && (empty + es)[j] == es[j]);
    }
    lemma_fold_entries_identity(empty, es);
}

/// Round trip, executably: serializing any well-formed registry and
/// reading it back yields a registry with the same entries, in the
/// same order. The body is verified, so the parse is proved to succeed
/// and the re-registration is proved to reproduce the entries exactly.
#[verifier::rlimit(100)]
#[verifier::spinoff_prover]
pub fn registry_round_trip(idx: &RegistryIndex) -> (r: RegistryIndex)
    requires
        idx.wf(),
    ensures
        r.wf(),
        r.view_entries() == idx.view_entries(),
{
    let text = idx.to_json();
    proof {
        crate::registry::lemma_wf_names_distinct(idx);
        lemma_registry_round_trip(idx.view_entries());
    }
    match RegistryIndex::from_json(text.as_str()) {
        Ok(r) => r,
        Err(_) => unreached(),
    }
}
} // verus!
