//! The environment of the command.
use vstd::prelude::*;

use crate::byte_string::ByteString;
use crate::copies::copy_vars;
use crate::env_map::EnvMap;
use crate::host::{find_name, Halt, HaltView, HostFacts, HostView, Query, QueryView};
use crate::policy::{EnvPlan, EnvPlanView};

verus! {

/// The variables that are passed on from this process whenever they are set.
pub open spec fn default_env_keys_of() -> Seq<Seq<char>> {
    seq!["PATH"@, "TERM"@, "LANG"@, "LC_ALL"@, "LC_CTYPE"@]
}

/// Those of the variables that are set in this process, with their values.
pub open spec fn passed_vars_of(names: Seq<Seq<char>>, host: HostView) -> Result<
    Seq<(Seq<char>, Seq<u8>)>,
    HaltView,
>
    decreases names.len(),
{
    if names.len() == 0 {
        Ok(Seq::empty())
    } else {
        let name = names.last();
        match passed_vars_of(names.drop_last(), host) {
            Err(halt) => Err(halt),
            Ok(vars) => if !host.vars.dom().contains(name) {
                Err(HaltView::Ask(QueryView::Var(name)))
            } else {
                match host.vars[name] {
                    Some(value) => Ok(crate::env_map::with_var(vars, name, value)),
                    None => Ok(vars),
                }
            },
        }
    }
}

/// The environment. If it is cleared, it holds those variables of this process that are passed on
/// by default or because they are asked for, and the variables that are set, which win. If not,
/// it is that of this process with the variables that are set.
pub open spec fn env_plan_of(
    clear: bool,
    pass: Seq<Seq<char>>,
    set: Seq<(Seq<char>, Seq<u8>)>,
    host: HostView,
) -> Result<EnvPlanView, HaltView> {
    if !clear {
        Ok(EnvPlanView { clear: false, vars: set })
    } else {
        match passed_vars_of(default_env_keys_of() + pass, host) {
            Err(halt) => Err(halt),
            Ok(vars) => Ok(
                EnvPlanView { clear: true, vars: crate::env_map::with_vars(vars, set) },
            ),
        }
    }
}

proof fn passed_vars_stop(names: Seq<Seq<char>>, at: int, host: HostView)
    requires
        0 <= at <= names.len(),
        passed_vars_of(names.take(at), host) is Err,
    ensures
        passed_vars_of(names, host) == passed_vars_of(names.take(at), host),
    decreases names.len() - at,
{
    if at < names.len() {
        assert(names.take(at + 1).drop_last() =~= names.take(at));
        passed_vars_stop(names, at + 1, host);
    } else {
        assert(names.take(at) =~= names);
    }
}

/// The variables that are passed on from this process whenever they are set.
pub fn default_env_keys() -> (names: Vec<String>)
    ensures
        names.deep_view() == default_env_keys_of(),
{
    let mut names: Vec<String> = Vec::new();
    names.push("PATH".to_owned());
    names.push("TERM".to_owned());
    names.push("LANG".to_owned());
    names.push("LC_ALL".to_owned());
    names.push("LC_CTYPE".to_owned());
    assert(names.deep_view() =~= default_env_keys_of());
    names
}

/// Those of the variables that are set in this process, with their values.
pub fn passed_vars(names: &Vec<String>, facts: &HostFacts) -> (vars: Result<EnvMap, Halt>)
    ensures
        crate::host::outcome(vars) == passed_vars_of(names.deep_view(), facts@),
        vars matches Ok(vars) ==> vars.well_formed(),
{
    let ghost model = names.deep_view();
    let mut vars = EnvMap::new();
    assert(model.take(0) =~= Seq::empty());
    let mut i: usize = 0;
    while i < names.len()
        invariant
            i <= names.len(),
            model == names.deep_view(),
            passed_vars_of(model.take(i as int), facts@) == Ok::<_, HaltView>(vars.deep_view()),
            vars.well_formed(),
        decreases names.len() - i,
    {
        let name = &names[i];
        assert(model.take(i + 1).drop_last() =~= model.take(i as int));
        assert(model.take(i + 1).last() == name@);
        match find_name(&facts.vars, name) {
            None => {
                proof {
                    passed_vars_stop(model, i + 1, facts@);
                }
                return Err(Halt::Ask(Query::Var(name.clone())));
            },
            Some(Some(value)) => {
                vars.insert(name.as_str(), value);
            },
            Some(None) => {},
        }
        i += 1;
    }
    assert(model.take(i as int) =~= model);
    Ok(vars)
}

/// The environment of the command.
pub fn resolve_env_plan(
    clear_env: bool,
    explicit_pass: &Vec<String>,
    explicit_set: &EnvMap,
    facts: &HostFacts,
) -> (plan: Result<EnvPlan, Halt>)
    ensures
        crate::host::outcome(plan) == env_plan_of(
            clear_env,
            explicit_pass.deep_view(),
            explicit_set.deep_view(),
            facts@,
        ),
{
    if !clear_env {
        return Ok(EnvPlan { clear: false, vars: copy_vars(&explicit_set.entries) });
    }
    let names = crate::policy_input::merge_vecs(
        default_env_keys(),
        crate::copies::copy_texts(explicit_pass),
    );
    let mut vars = passed_vars(&names, facts)?;
    vars.insert_all(&explicit_set.entries);
    Ok(EnvPlan { clear: true, vars: vars.entries })
}

/// A variable and its value as `KEY=VALUE`.
pub fn format_env_arg(key: &str, value: &ByteString) -> (arg: ByteString)
    ensures
        arg@ == vstd::utf8::encode_utf8(key@) + vstd::utf8::encode_utf8("="@) + value@,
{
    let mut merged = ByteString::from_text(key);
    merged.append(&ByteString::from_text("="));
    merged.append(value);
    merged
}

proof fn passed_vars_have_host_values(names: Seq<Seq<char>>, host: HostView, name: Seq<char>)
    requires
        passed_vars_of(names, host) is Ok,
    ensures
        crate::env_map::names_ascend(passed_vars_of(names, host)->Ok_0),
        crate::env_map::value_of(passed_vars_of(names, host)->Ok_0, name) == if names.contains(
            name,
        ) {
            host.vars[name]
        } else {
            None
        },
    decreases names.len(),
{
    if names.len() > 0 {
        let earlier = names.drop_last();
        let last = names.last();
        passed_vars_have_host_values(earlier, host, name);
        if let Some(value) = host.vars[last] {
            crate::env_map::with_var_sets_one(
                passed_vars_of(earlier, host)->Ok_0,
                last,
                value,
                name,
            );
        }
        assert(names[names.len() - 1] == last);
        if earlier.contains(name) {
            assert(names[earlier.index_of(name)] == name);
        }
        if names.contains(name) && name != last {
            assert(earlier[names.index_of(name)] == name);
        }
    }
}

/// What the environment of the command holds, name by name. A variable that is set has the value
/// it is set to. Otherwise, in an environment that is cleared, one that is passed on has the value
/// that it has in this process, if any. Nothing else is there.
pub proof fn environment_is_what_was_asked_for(
    clear: bool,
    pass: Seq<Seq<char>>,
    set: Seq<(Seq<char>, Seq<u8>)>,
    host: HostView,
    name: Seq<char>,
)
    requires
        crate::env_map::names_ascend(set),
        env_plan_of(clear, pass, set, host) is Ok,
    ensures
        ({
            let plan = env_plan_of(clear, pass, set, host)->Ok_0;
            &&& plan.clear == clear
            &&& crate::env_map::names_ascend(plan.vars)
            &&& crate::env_map::value_of(plan.vars, name) == match crate::env_map::value_of(
                set,
                name,
            ) {
                Some(value) => Some(value),
                None => if clear && (default_env_keys_of() + pass).contains(name) {
                    host.vars[name]
                } else {
                    None
                },
            }
        }),
{
    if clear {
        let names = default_env_keys_of() + pass;
        let passed = passed_vars_of(names, host)->Ok_0;
        passed_vars_have_host_values(names, host, name);
        crate::env_map::with_vars_sets_the_last(passed, set, name);
        crate::env_map::value_stands_beside_name(set, name);
        if exists|i: int| 0 <= i < set.len() && (#[trigger] set[i]).0 == name {
            let i = choose|i: int| 0 <= i < set.len() && (#[trigger] set[i]).0 == name;
            assert forall|j: int| i < j < set.len() implies (#[trigger] set[j]).0 != name by {
                crate::env_map::name_less_is_an_order(set[i].0, set[j].0, name);
            }
        }
    }
}

/// The variables that are passed on by default are the path, the terminal and the locale.
pub proof fn default_variables(name: Seq<char>)
    ensures
        default_env_keys_of().contains(name) <==> name == "PATH"@ || name == "TERM"@ || name
            == "LANG"@ || name == "LC_ALL"@ || name == "LC_CTYPE"@,
{
    let names = default_env_keys_of();
    assert(names[0] == "PATH"@ && names[1] == "TERM"@ && names[2] == "LANG"@ && names[3]
        == "LC_ALL"@ && names[4] == "LC_CTYPE"@);
}

proof fn passed_vars_need_the_host(names: Seq<Seq<char>>, host: HostView)
    ensures
        passed_vars_of(names, host) is Ok <==> forall|i: int|
            0 <= i < names.len() ==> host.vars.dom().contains(#[trigger] names[i]),
        passed_vars_of(names, host) matches Err(halt) ==> exists|i: int|
            0 <= i < names.len() && !host.vars.dom().contains(#[trigger] names[i]) && halt
                == HaltView::Ask(QueryView::Var(names[i])),
    decreases names.len(),
{
    if names.len() > 0 {
        let earlier = names.drop_last();
        passed_vars_need_the_host(earlier, host);
        assert forall|i: int| 0 <= i < earlier.len() implies #[trigger] earlier[i]
            == names[i] by {}
        assert(names[names.len() - 1] == names.last());
        if passed_vars_of(earlier, host) is Err {
            let i = choose|i: int|
                0 <= i < earlier.len() && !host.vars.dom().contains(#[trigger] earlier[i])
                    && passed_vars_of(earlier, host) == Err::<Seq<(Seq<char>, Seq<u8>)>, _>(
                    HaltView::Ask(QueryView::Var(earlier[i])),
                );
            assert(!host.vars.dom().contains(names[i]));
        } else if host.vars.dom().contains(names.last()) {
            assert forall|i: int| 0 <= i < names.len() implies host.vars.dom().contains(
                #[trigger] names[i],
            ) by {
                if i < earlier.len() {
                    assert(host.vars.dom().contains(earlier[i]));
                }
            }
        }
    }
}

/// The environment can be made as soon as it is known which of the variables are set in this
/// process. It does not fail. One that is not cleared needs nothing of this process.
pub proof fn environment_can_be_made(
    clear: bool,
    pass: Seq<Seq<char>>,
    set: Seq<(Seq<char>, Seq<u8>)>,
    host: HostView,
)
    ensures
        !clear ==> env_plan_of(clear, pass, set, host) is Ok,
        env_plan_of(clear, pass, set, host) is Ok <==> !clear || forall|i: int|
            0 <= i < default_env_keys_of().len() + pass.len() ==> host.vars.dom().contains(
                #[trigger] (default_env_keys_of() + pass)[i],
            ),
        env_plan_of(clear, pass, set, host) matches Err(halt) ==> halt is Ask,
{
    passed_vars_need_the_host(default_env_keys_of() + pass, host);
}

/// An environment that is not cleared is given the variables that are set, in their order, and no
/// others.
pub proof fn inherited_environment_is_added_to(
    pass: Seq<Seq<char>>,
    set: Seq<(Seq<char>, Seq<u8>)>,
    host: HostView,
)
    ensures
        env_plan_of(false, pass, set, host) matches Ok(plan) && !plan.clear && plan.vars == set,
{
}

} // verus!
