//! The adapter between the configuration document and the action engine:
//! reads a button's free-form key/value map and builds the declarative
//! action description its action type calls for, and finds the action
//! behind a button identifier.

use vstd::prelude::*;
use crate::action::ActionConfig;
use crate::config::ActionButton;
use crate::config::ActionType;
use crate::config::ConfigValue;
use crate::config::QDeckConfig;
use crate::config::map_lookup;
use crate::config::map_get;
use crate::text::dec_str;
use crate::text::u32_to_string;
use crate::text::str_eq;

verus! {

/// The string value bound to `key`, when the entry exists and is a
/// string; a missing entry and one of another shape both count as absent.
pub open spec fn str_entry(m: Seq<(String, ConfigValue)>, key: Seq<char>) -> Option<String> {
    match map_lookup(m, key) {
        Some(i) => match m[i].1 {
            ConfigValue::Str(s) => Some(s),
            _ => None,
        },
        None => None,
    }
}

/// The unsigned value bound to `key`, under the same absence rule.
pub open spec fn u64_entry(m: Seq<(String, ConfigValue)>, key: Seq<char>) -> Option<u64> {
    match map_lookup(m, key) {
        Some(i) => match m[i].1 {
            ConfigValue::UInt(n) => Some(n),
            _ => None,
        },
        None => None,
    }
}

/// The boolean value bound to `key`, under the same absence rule.
pub open spec fn bool_entry(m: Seq<(String, ConfigValue)>, key: Seq<char>) -> Option<bool> {
    match map_lookup(m, key) {
        Some(i) => match m[i].1 {
            ConfigValue::Bool(b) => Some(b),
            _ => None,
        },
        None => None,
    }
}

/// The list bound to `key`, under the same absence rule.
pub open spec fn list_entry(m: Seq<(String, ConfigValue)>, key: Seq<char>) -> Option<
    Seq<ConfigValue>,
> {
    match map_lookup(m, key) {
        Some(i) => match m[i].1 {
            ConfigValue::List(l) => Some(l@),
            _ => None,
        },
        None => None,
    }
}

/// The key/value list bound to `key`, under the same absence rule.
pub open spec fn object_entry(m: Seq<(String, ConfigValue)>, key: Seq<char>) -> Option<
    Seq<(String, ConfigValue)>,
> {
    match map_lookup(m, key) {
        Some(i) => match m[i].1 {
            ConfigValue::Object(o) => Some(o@),
            _ => None,
        },
        None => None,
    }
}

/// The string items of a list, in order; items of another shape are
/// dropped.
pub open spec fn strs_of(l: Seq<ConfigValue>) -> Seq<String>
    decreases l.len(),
{
    if l.len() == 0 {
        Seq::<String>::empty()
    } else {
        strs_of(l.drop_last()) + (match l.last() {
            ConfigValue::Str(s) => seq![s],
            _ => Seq::<String>::empty(),
        })
    }
}

/// The entries of a key/value list whose values are strings, in order.
pub open spec fn str_pairs_of(m: Seq<(String, ConfigValue)>) -> Seq<(String, String)>
    decreases m.len(),
{
    if m.len() == 0 {
        Seq::<(String, String)>::empty()
    } else {
        str_pairs_of(m.drop_last()) + (match m.last().1 {
            ConfigValue::Str(s) => seq![(m.last().0, s)],
            _ => Seq::<(String, String)>::empty(),
        })
    }
}

/// The action type a tag string names.
pub open spec fn action_type_of(s: Seq<char>) -> Option<ActionType> {
    if s == "LaunchApp"@ {
        Some(ActionType::LaunchApp)
    } else if s == "Open"@ {
        Some(ActionType::Open)
    } else if s == "Terminal"@ {
        Some(ActionType::Terminal)
    } else if s == "SendKeys"@ {
        Some(ActionType::SendKeys)
    } else if s == "PowerShell"@ {
        Some(ActionType::PowerShell)
    } else if s == "Folder"@ {
        Some(ActionType::Folder)
    } else if s == "MultiAction"@ {
        Some(ActionType::MultiAction)
    } else {
        None
    }
}

/// What a composite's item list must satisfy for the conversion to go
/// through: every object item carries a known action-type tag and an
/// object-shaped configuration. Items of other shapes are passed over.
pub open spec fn multi_items_wellformed(items: Seq<ConfigValue>) -> bool {
    forall|k: int|
        0 <= k < items.len() ==> (#[trigger] items[k] matches ConfigValue::Object(m1) ==> {
            &&& str_entry(m1@, "action_type"@) matches Some(t) && action_type_of(t@) is Some
            &&& object_entry(m1@, "config"@) is Some
        })
}

/// Whether the map `m` holds what a conversion for `ty` requires.
pub open spec fn convertible(ty: ActionType, m: Seq<(String, ConfigValue)>) -> bool {
    match ty {
        ActionType::LaunchApp => str_entry(m, "path"@) is Some,
        ActionType::Open => str_entry(m, "target"@) is Some,
        ActionType::Terminal => str_entry(m, "terminal"@) is Some,
        ActionType::MultiAction => list_entry(m, "actions"@) matches Some(items)
            && multi_items_wellformed(items),
        ActionType::SendKeys => false,
        ActionType::PowerShell => false,
        ActionType::Folder => false,
    }
}

/// The action type and configuration map carried by a composite's item,
/// when the item is an object with a valid tag and an object-shaped
/// configuration.
pub open spec fn item_parts(item: ConfigValue) -> Option<(ActionType, Seq<(String, ConfigValue)>)> {
    match item {
        ConfigValue::Object(m1) => match str_entry(m1@, "action_type"@) {
            Some(t) => match action_type_of(t@) {
                Some(ty) => match object_entry(m1@, "config"@) {
                    Some(m2) => Some((ty, m2)),
                    None => None,
                },
                None => None,
            },
            None => None,
        },
        _ => None,
    }
}

/// How a composite's built sub-actions line up with its item list:
/// each convertible object item contributes its converted description in
/// order, and items of other shapes or without a possible conversion
/// are passed over.
pub open spec fn items_converted(actions: Seq<ActionConfig>, items: Seq<ConfigValue>) -> bool
    decreases actions, items.len(),
{
    if items.len() == 0 {
        actions.len() == 0
    } else {
        match items.first() {
            ConfigValue::Object(m1) => match item_parts(items.first()) {
                Some(p) => if convertible(p.0, p.1) {
                    actions.len() > 0 && converted_action(actions.first(), p.0, p.1)
                        && items_converted(actions.drop_first(), items.drop_first())
                } else {
                    items_converted(actions, items.drop_first())
                },
                None => false,
            },
            _ => items_converted(actions, items.drop_first()),
        }
    }
}

/// How a built description relates to the map it was read from.
pub open spec fn converted_action(a: ActionConfig, ty: ActionType, m: Seq<(String, ConfigValue)>) -> bool
    decreases a, 0int,
{
    match ty {
        ActionType::LaunchApp => a matches ActionConfig::LaunchApp { path, args, workdir, env } && {
            &&& Some(path) == str_entry(m, "path"@)
            &&& (match list_entry(m, "args"@) {
                Some(l) => args matches Some(v) && v@ == strs_of(l),
                None => args is None,
            })
            &&& (match str_entry(m, "workdir"@) {
                Some(w) => workdir == Some(w),
                None => workdir is None,
            })
            &&& (match object_entry(m, "env"@) {
                Some(o) => env matches Some(e) && e@ == str_pairs_of(o),
                None => env is None,
            })
        },
        ActionType::Open => a matches ActionConfig::Open { target, verb } && {
            &&& Some(target) == str_entry(m, "target"@)
            &&& verb == str_entry(m, "verb"@)
        },
        ActionType::Terminal => a matches ActionConfig::Terminal {
            terminal,
            profile,
            workdir,
            command,
            env,
            args,
        } && {
            &&& Some(terminal) == str_entry(m, "terminal"@)
            &&& profile == str_entry(m, "profile"@)
            &&& workdir == str_entry(m, "workdir"@)
            &&& command == str_entry(m, "command"@)
            &&& (match object_entry(m, "env"@) {
                Some(o) => env matches Some(e) && e@ == str_pairs_of(o),
                None => env is None,
            })
            &&& (match list_entry(m, "args"@) {
                Some(l) => args matches Some(v) && v@ == strs_of(l),
                None => args is None,
            })
        },
        ActionType::MultiAction => a matches ActionConfig::MultiAction {
            actions,
            delay_between_ms,
            stop_on_error,
        } && {
            &&& delay_between_ms == u64_entry(m, "delay_between_ms"@)
            &&& stop_on_error == bool_entry(m, "stop_on_error"@)
            &&& (list_entry(m, "actions"@) matches Some(items) && items_converted(
                actions@,
                items,
            ))
        },
        _ => false,
    }
}

/// An item that is no object leaves the built sub-actions as they are.
proof fn lemma_items_converted_push_nonobject(
    actions: Seq<ActionConfig>,
    items: Seq<ConfigValue>,
    item: ConfigValue,
)
    requires
        items_converted(actions, items),
        !(item is Object),
    ensures
        items_converted(actions, items.push(item)),
    decreases items.len(),
{
    reveal_with_fuel(items_converted, 3);
    let pushed = items.push(item);
    if items.len() == 0 {
        assert(pushed.first() == item);
        assert(pushed.drop_first() =~= Seq::<ConfigValue>::empty());
    } else {
        assert(pushed.first() == items.first());
        assert(pushed.drop_first() =~= items.drop_first().push(item));
        match items.first() {
            ConfigValue::Object(m1) => {
                match item_parts(items.first()) {
                    Some(p) => {
                        if convertible(p.0, p.1) {
                            lemma_items_converted_push_nonobject(
                                actions.drop_first(),
                                items.drop_first(),
                                item,
                            );
                        } else {
                            lemma_items_converted_push_nonobject(
                                actions,
                                items.drop_first(),
                                item,
                            );
                        }
                    },
                    None => {},
                }
            },
            _ => {
                lemma_items_converted_push_nonobject(actions, items.drop_first(), item);
            },
        }
    }
}

/// An object item whose configuration cannot convert leaves the built
/// sub-actions as they are.
proof fn lemma_items_converted_push_unconvertible(
    actions: Seq<ActionConfig>,
    items: Seq<ConfigValue>,
    item: ConfigValue,
)
    requires
        items_converted(actions, items),
        item is Object,
        item_parts(item) matches Some(p) && !convertible(p.0, p.1),
    ensures
        items_converted(actions, items.push(item)),
    decreases items.len(),
{
    reveal_with_fuel(items_converted, 3);
    let pushed = items.push(item);
    if items.len() == 0 {
        assert(pushed.first() == item);
        assert(pushed.drop_first() =~= Seq::<ConfigValue>::empty());
    } else {
        assert(pushed.first() == items.first());
        assert(pushed.drop_first() =~= items.drop_first().push(item));
        match items.first() {
            ConfigValue::Object(m1) => {
                match item_parts(items.first()) {
                    Some(p) => {
                        if convertible(p.0, p.1) {
                            lemma_items_converted_push_unconvertible(
                                actions.drop_first(),
                                items.drop_first(),
                                item,
                            );
                        } else {
                            lemma_items_converted_push_unconvertible(
                                actions,
                                items.drop_first(),
                                item,
                            );
                        }
                    },
                    None => {},
                }
            },
            _ => {
                lemma_items_converted_push_unconvertible(actions, items.drop_first(), item);
            },
        }
    }
}

/// A convertible object item appends its converted description.
proof fn lemma_items_converted_push_converted(
    actions: Seq<ActionConfig>,
    items: Seq<ConfigValue>,
    item: ConfigValue,
    a: ActionConfig,
)
    requires
        items_converted(actions, items),
        item is Object,
        item_parts(item) matches Some(p) && convertible(p.0, p.1) && converted_action(
            a,
            p.0,
            p.1,
        ),
    ensures
        items_converted(actions.push(a), items.push(item)),
    decreases items.len(),
{
    reveal_with_fuel(items_converted, 3);
    let pushed = items.push(item);
    let pushed_actions = actions.push(a);
    if items.len() == 0 {
        assert(actions.len() == 0);
        assert(pushed.first() == item);
        assert(pushed_actions.first() == a);
        assert(pushed.drop_first() =~= Seq::<ConfigValue>::empty());
        assert(pushed_actions.drop_first() =~= Seq::<ActionConfig>::empty());
    } else {
        assert(pushed.first() == items.first());
        assert(pushed.drop_first() =~= items.drop_first().push(item));
        match items.first() {
            ConfigValue::Object(m1) => {
                match item_parts(items.first()) {
                    Some(p) => {
                        if convertible(p.0, p.1) {
                            assert(actions.len() > 0);
                            assert(pushed_actions.first() == actions.first());
                            assert(pushed_actions.drop_first() =~= actions.drop_first().push(a));
                            lemma_items_converted_push_converted(
                                actions.drop_first(),
                                items.drop_first(),
                                item,
                                a,
                            );
                        } else {
                            lemma_items_converted_push_converted(
                                actions,
                                items.drop_first(),
                                item,
                                a,
                            );
                        }
                    },
                    None => {},
                }
            },
            _ => {
                lemma_items_converted_push_converted(actions, items.drop_first(), item, a);
            },
        }
    }
}

fn entry_as_str(m: &Vec<(String, ConfigValue)>, key: &str) -> (r: Option<String>)
    ensures
        r == str_entry(m@, key@),
{
    match map_get(m, key) {
        Some(v) => match v.as_str() {
            Some(s) => Some(s.clone()),
            None => None,
        },
        None => None,
    }
}

fn entry_as_u64(m: &Vec<(String, ConfigValue)>, key: &str) -> (r: Option<u64>)
    ensures
        r == u64_entry(m@, key@),
{
    match map_get(m, key) {
        Some(v) => v.as_u64(),
        None => None,
    }
}

fn entry_as_bool(m: &Vec<(String, ConfigValue)>, key: &str) -> (r: Option<bool>)
    ensures
        r == bool_entry(m@, key@),
{
    match map_get(m, key) {
        Some(v) => v.as_bool(),
        None => None,
    }
}

fn strings_of_list(l: &Vec<ConfigValue>) -> (out: Vec<String>)
    ensures
        out@ == strs_of(l@),
{
    let mut out: Vec<String> = Vec::new();
    let mut i: usize = 0;
    while i < l.len()
        invariant
            i <= l@.len(),
            out@ == strs_of(l@.subrange(0, i as int)),
        decreases l@.len() - i,
    {
        proof {
            let pre = l@.subrange(0, i + 1);
            assert(pre.drop_last() =~= l@.subrange(0, i as int));
            assert(pre.last() == l@[i as int]);
        }
        match l[i].as_str() {
            Some(s) => {
                out.push(s.clone());
                proof {
                    assert(out@ =~= strs_of(l@.subrange(0, i + 1)));
                }
            },
            None => {
                proof {
                    assert(out@ =~= strs_of(l@.subrange(0, i + 1)));
                }
            },
        }
        i = i + 1;
    }
    proof {
        assert(l@.subrange(0, l@.len() as int) =~= l@);
    }
    out
}

fn string_pairs_of_object(m: &Vec<(String, ConfigValue)>) -> (out: Vec<(String, String)>)
    ensures
        out@ == str_pairs_of(m@),
{
    let mut out: Vec<(String, String)> = Vec::new();
    let mut i: usize = 0;
    while i < m.len()
        invariant
            i <= m@.len(),
            out@ == str_pairs_of(m@.subrange(0, i as int)),
        decreases m@.len() - i,
    {
        proof {
            let pre = m@.subrange(0, i + 1);
            assert(pre.drop_last() =~= m@.subrange(0, i as int));
            assert(pre.last() == m@[i as int]);
        }
        match m[i].1.as_str() {
            Some(s) => {
                out.push((m[i].0.clone(), s.clone()));
                proof {
                    assert(out@ =~= str_pairs_of(m@.subrange(0, i + 1)));
                }
            },
            None => {
                proof {
                    assert(out@ =~= str_pairs_of(m@.subrange(0, i + 1)));
                }
            },
        }
        i = i + 1;
    }
    proof {
        assert(m@.subrange(0, m@.len() as int) =~= m@);
    }
    out
}

fn parse_action_type(s: &str) -> (r: Option<ActionType>)
    ensures
        r == action_type_of(s@),
{
    if str_eq(s, "LaunchApp") {
        Some(ActionType::LaunchApp)
    } else if str_eq(s, "Open") {
        Some(ActionType::Open)
    } else if str_eq(s, "Terminal") {
        Some(ActionType::Terminal)
    } else if str_eq(s, "SendKeys") {
        Some(ActionType::SendKeys)
    } else if str_eq(s, "PowerShell") {
        Some(ActionType::PowerShell)
    } else if str_eq(s, "Folder") {
        Some(ActionType::Folder)
    } else if str_eq(s, "MultiAction") {
        Some(ActionType::MultiAction)
    } else {
        None
    }
}

/// Builds the description for an action type from a button's key/value
/// map. Conversion goes through exactly when the map holds what the type
/// requires; unsupported types never convert.
pub fn action_config_from(ty: &ActionType, config: &Vec<(String, ConfigValue)>) -> (r: Option<
    ActionConfig,
>)
    ensures
        r is Some <==> convertible(*ty, config@),
        r matches Some(a) ==> converted_action(a, *ty, config@),
    decreases config@,
{
    match ty {
        ActionType::LaunchApp => {
            let path = match entry_as_str(config, "path") {
                Some(p) => p,
                None => {
                    return None;
                },
            };
            let args = match map_get(config, "args") {
                Some(v) => match v.as_list() {
                    Some(l) => Some(strings_of_list(l)),
                    None => None,
                },
                None => None,
            };
            let workdir = entry_as_str(config, "workdir");
            let env = match map_get(config, "env") {
                Some(v) => match v.as_object() {
                    Some(o) => Some(string_pairs_of_object(o)),
                    None => None,
                },
                None => None,
            };
            Some(ActionConfig::LaunchApp { path, args, workdir, env })
        },
        ActionType::Open => {
            let target = match entry_as_str(config, "target") {
                Some(t) => t,
                None => {
                    return None;
                },
            };
            let verb = entry_as_str(config, "verb");
            Some(ActionConfig::Open { target, verb })
        },
        ActionType::Terminal => {
            let terminal = match entry_as_str(config, "terminal") {
                Some(t) => t,
                None => {
                    return None;
                },
            };
            let profile = entry_as_str(config, "profile");
            let workdir = entry_as_str(config, "workdir");
            let command = entry_as_str(config, "command");
            let env = match map_get(config, "env") {
                Some(v) => match v.as_object() {
                    Some(o) => Some(string_pairs_of_object(o)),
                    None => None,
                },
                None => None,
            };
            let args = match map_get(config, "args") {
                Some(v) => match v.as_list() {
                    Some(l) => Some(strings_of_list(l)),
                    None => None,
                },
                None => None,
            };
            Some(ActionConfig::Terminal { terminal, profile, workdir, command, env, args })
        },
        ActionType::MultiAction => {
            let ghost cfg = config@;
            let actions_value = match map_get(config, "actions") {
                Some(v) => v,
                None => {
                    return None;
                },
            };
            let items = match actions_value.as_list() {
                Some(l) => l,
                None => {
                    return None;
                },
            };
            let ghost lookup_i = map_lookup(cfg, "actions"@).unwrap();
            let mut actions: Vec<ActionConfig> = Vec::new();
            let mut k: usize = 0;
            while k < items.len()
                invariant
                    *ty == ActionType::MultiAction,
                    k <= items@.len(),
                    items_converted(actions@, items@.subrange(0, k as int)),
                    cfg == config@,
                    map_lookup(cfg, "actions"@) == Some(lookup_i),
                    0 <= lookup_i < cfg.len(),
                    cfg[lookup_i].1 == ConfigValue::List(*items),
                    forall|t: int|
                        0 <= t < k ==> (#[trigger] items@[t] matches ConfigValue::Object(m1) ==> {
                            &&& str_entry(m1@, "action_type"@) matches Some(ts) && action_type_of(
                                ts@,
                            ) is Some
                            &&& object_entry(m1@, "config"@) is Some
                        }),
                decreases items@.len() - k,
            {
                match items[k].as_object() {
                    Some(obj) => {
                        let tag = match entry_as_str(obj, "action_type") {
                            Some(t) => t,
                            None => {
                                proof {
                                    assert(!multi_items_wellformed(items@));
                                }
                                return None;
                            },
                        };
                        let sub_type = match parse_action_type(tag.as_str()) {
                            Some(t) => t,
                            None => {
                                proof {
                                    assert(!multi_items_wellformed(items@));
                                }
                                return None;
                            },
                        };
                        let sub_config = match map_get(obj, "config") {
                            Some(v) => match v.as_object() {
                                Some(o) => o,
                                None => {
                                    proof {
                                        assert(!multi_items_wellformed(items@));
                                    }
                                    return None;
                                },
                            },
                            None => {
                                proof {
                                    assert(!multi_items_wellformed(items@));
                                }
                                return None;
                            },
                        };
                        proof {
                            assert(decreases_to!(cfg => cfg[lookup_i]));
                            assert(decreases_to!(cfg[lookup_i] => cfg[lookup_i].1));
                            assert(decreases_to!(cfg[lookup_i].1 => cfg[lookup_i].1->List_0));
                            assert(decreases_to!(items@ => items@[k as int]));
                            assert(item_parts(items@[k as int]) == Some(
                                (sub_type, sub_config@),
                            ));
                        }
                        let ghost prefix = items@.subrange(0, k as int);
                        match action_config_from(&sub_type, sub_config) {
                            Some(sub_action) => {
                                let ghost old_actions = actions@;
                                let ghost a_spec = sub_action;
                                actions.push(sub_action);
                                proof {
                                    lemma_items_converted_push_converted(
                                        old_actions,
                                        prefix,
                                        items@[k as int],
                                        a_spec,
                                    );
                                    assert(prefix.push(items@[k as int]) =~= items@.subrange(
                                        0,
                                        k + 1,
                                    ));
                                }
                            },
                            None => {
                                proof {
                                    lemma_items_converted_push_unconvertible(
                                        actions@,
                                        prefix,
                                        items@[k as int],
                                    );
                                    assert(prefix.push(items@[k as int]) =~= items@.subrange(
                                        0,
                                        k + 1,
                                    ));
                                }
                            },
                        }
                    },
                    None => {
                        proof {
                            let prefix = items@.subrange(0, k as int);
                            lemma_items_converted_push_nonobject(
                                actions@,
                                prefix,
                                items@[k as int],
                            );
                            assert(prefix.push(items@[k as int]) =~= items@.subrange(0, k + 1));
                        }
                    },
                }
                k = k + 1;
            }
            proof {
                assert(items@.subrange(0, items@.len() as int) =~= items@);
            }
            let delay_between_ms = entry_as_u64(config, "delay_between_ms");
            let stop_on_error = entry_as_bool(config, "stop_on_error");
            Some(ActionConfig::MultiAction { actions, delay_between_ms, stop_on_error })
        },
        ActionType::SendKeys => None,
        ActionType::PowerShell => None,
        ActionType::Folder => None,
    }
}

/// Builds the description a button's action type and map call for.
pub fn button_to_action_config(button: &ActionButton) -> (r: Option<ActionConfig>)
    ensures
        r is Some <==> convertible(button.action_type, button.config@),
        r matches Some(a) ==> converted_action(a, button.action_type, button.config@),
{
    action_config_from(&button.action_type, &button.config)
}

/// The identifier a button answers to: profile, page, row and column,
/// joined with colons.
pub open spec fn button_id(
    profile_name: Seq<char>,
    page_name: Seq<char>,
    row: u32,
    col: u32,
) -> Seq<char> {
    profile_name + seq![':'] + page_name + seq![':'] + dec_str(row as nat) + seq![':'] + dec_str(
        col as nat,
    )
}

/// Whether `id` addresses the button: its composed identifier or its
/// label.
pub open spec fn button_addressed(
    id: Seq<char>,
    profile_name: Seq<char>,
    page_name: Seq<char>,
    b: ActionButton,
) -> bool {
    id == button_id(profile_name, page_name, b.position.row, b.position.col) || id == b.label@
}

fn make_button_id(profile_name: &str, page_name: &str, row: u32, col: u32) -> (r: String)
    ensures
        r@ == button_id(profile_name@, page_name@, row, col),
{
    proof {
        reveal_strlit(":");
        assert(":"@ =~= seq![':']);
    }
    let mut s = String::new();
    s.append(profile_name);
    s.append(":");
    s.append(page_name);
    s.append(":");
    let rs = u32_to_string(row);
    s.append(rs.as_str());
    s.append(":");
    let cs = u32_to_string(col);
    s.append(cs.as_str());
    proof {
        assert(s@ =~= button_id(profile_name@, page_name@, row, col));
    }
    s
}

/// Whether the button at `(i, j, k)` answers to `id` and its map
/// converts.
pub open spec fn addressable_hit(config: QDeckConfig, id: Seq<char>, i: int, j: int, k: int) -> bool
    recommends
        0 <= i < config.profiles@.len(),
        0 <= j < config.profiles@[i].pages@.len(),
        0 <= k < config.profiles@[i].pages@[j].buttons@.len(),
{
    button_addressed(
        id,
        config.profiles@[i].name@,
        config.profiles@[i].pages@[j].name@,
        config.profiles@[i].pages@[j].buttons@[k],
    ) && convertible(
        config.profiles@[i].pages@[j].buttons@[k].action_type,
        config.profiles@[i].pages@[j].buttons@[k].config@,
    )
}

/// Whether button coordinates `(i2, j2, k2)` come before `(i, j, k)` in
/// profile, page and button scan order.
pub open spec fn scanned_before(i2: int, j2: int, k2: int, i: int, j: int, k: int) -> bool {
    i2 < i || (i2 == i && j2 < j) || (i2 == i && j2 == j && k2 < k)
}

/// The description behind an action identifier: the first button, in
/// profile, page and button order, that the identifier addresses and
/// whose map converts. Nothing is found exactly when no button answers
/// to the identifier with a convertible map.
pub fn find_action_config(config: &QDeckConfig, action_id: &str) -> (r: Option<ActionConfig>)
    ensures
        r matches Some(a) ==> exists|i: int, j: int, k: int|
            {
                &&& 0 <= i < config.profiles@.len()
                &&& 0 <= j < config.profiles@[i].pages@.len()
                &&& 0 <= k < config.profiles@[i].pages@[j].buttons@.len()
                &&& #[trigger] addressable_hit(*config, action_id@, i, j, k)
                &&& converted_action(
                    a,
                    config.profiles@[i].pages@[j].buttons@[k].action_type,
                    config.profiles@[i].pages@[j].buttons@[k].config@,
                )
                &&& forall|i2: int, j2: int, k2: int|
                    0 <= i2 < config.profiles@.len() && 0 <= j2
                        < config.profiles@[i2].pages@.len() && 0 <= k2
                        < config.profiles@[i2].pages@[j2].buttons@.len() && scanned_before(
                        i2,
                        j2,
                        k2,
                        i,
                        j,
                        k,
                    ) ==> !#[trigger] addressable_hit(*config, action_id@, i2, j2, k2)
            },
        r is None ==> forall|i: int, j: int, k: int|
            0 <= i < config.profiles@.len() && 0 <= j < config.profiles@[i].pages@.len() && 0 <= k
                < config.profiles@[i].pages@[j].buttons@.len() ==> !#[trigger] addressable_hit(
                *config,
                action_id@,
                i,
                j,
                k,
            ),
{
    let mut i: usize = 0;
    while i < config.profiles.len()
        invariant
            i <= config.profiles@.len(),
            forall|i2: int, j2: int, k2: int|
                0 <= i2 < i && 0 <= j2 < config.profiles@[i2].pages@.len() && 0 <= k2
                    < config.profiles@[i2].pages@[j2].buttons@.len() ==> !#[trigger] addressable_hit(
                    *config,
                    action_id@,
                    i2,
                    j2,
                    k2,
                ),
        decreases config.profiles@.len() - i,
    {
        let profile = &config.profiles[i];
        let mut j: usize = 0;
        while j < profile.pages.len()
            invariant
                i < config.profiles@.len(),
                *profile == config.profiles@[i as int],
                j <= profile.pages@.len(),
                forall|i2: int, j2: int, k2: int|
                    0 <= i2 < i && 0 <= j2 < config.profiles@[i2].pages@.len() && 0 <= k2
                        < config.profiles@[i2].pages@[j2].buttons@.len()
                        ==> !#[trigger] addressable_hit(*config, action_id@, i2, j2, k2),
                forall|j2: int, k2: int|
                    0 <= j2 < j && 0 <= k2
                        < config.profiles@[i as int].pages@[j2].buttons@.len()
                        ==> !#[trigger] addressable_hit(*config, action_id@, i as int, j2, k2),
            decreases profile.pages@.len() - j,
        {
            let page = &profile.pages[j];
            let mut k: usize = 0;
            while k < page.buttons.len()
                invariant
                    i < config.profiles@.len(),
                    *profile == config.profiles@[i as int],
                    j < profile.pages@.len(),
                    *page == profile.pages@[j as int],
                    k <= page.buttons@.len(),
                    forall|i2: int, j2: int, k2: int|
                        0 <= i2 < i && 0 <= j2 < config.profiles@[i2].pages@.len() && 0 <= k2
                            < config.profiles@[i2].pages@[j2].buttons@.len()
                            ==> !#[trigger] addressable_hit(*config, action_id@, i2, j2, k2),
                    forall|j2: int, k2: int|
                        0 <= j2 < j && 0 <= k2
                            < config.profiles@[i as int].pages@[j2].buttons@.len()
                            ==> !#[trigger] addressable_hit(*config, action_id@, i as int, j2, k2),
                    forall|k2: int|
                        0 <= k2 < k ==> !#[trigger] addressable_hit(
                            *config,
                            action_id@,
                            i as int,
                            j as int,
                            k2,
                        ),
                decreases page.buttons@.len() - k,
            {
                let button = &page.buttons[k];
                let id = make_button_id(
                    profile.name.as_str(),
                    page.name.as_str(),
                    button.position.row,
                    button.position.col,
                );
                if str_eq(id.as_str(), action_id) || str_eq(button.label.as_str(), action_id) {
                    match button_to_action_config(button) {
                        Some(found) => {
                            proof {
                                assert(addressable_hit(
                                    *config,
                                    action_id@,
                                    i as int,
                                    j as int,
                                    k as int,
                                ));
                            }
                            return Some(found);
                        },
                        None => {},
                    }
                }
                k = k + 1;
            }
            j = j + 1;
        }
        i = i + 1;
    }
    None
}

} // verus!
