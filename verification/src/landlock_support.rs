//! Landlock: what the kernel offers, and what is asked of it.
use landlock::{Access, AccessFs, ABI};
use vstd::prelude::*;

use crate::host::{Halt, HaltView, HostFacts, HostView, Query, QueryView};
use crate::policy::{LandlockPlan, LandlockPlanView};
use crate::unix_path::UnixPath;

verus! {

/// The first ABI of Landlock with rules for TCP ports.
pub const TCP_RULES_MIN_ABI: u32 = 4;

/// The ABI of Landlock whose access rights are used.
pub const RIGHTS_ABI: i32 = 6;

/// A thing that stays allowed.
#[derive(Debug, PartialEq, Eq)]
pub enum LandlockRule {
    /// The file system access rights `access`, at a path and beneath it.
    PathBeneath { path: UnixPath, access: u64 },
    /// Binding a TCP port.
    BindTcp(u16),
    /// Connecting to a TCP port.
    ConnectTcp(u16),
}

/// The model of [`LandlockRule`].
pub enum LandlockRuleView {
    PathBeneath { path: Seq<u8>, access: u64 },
    BindTcp(u16),
    ConnectTcp(u16),
}

impl DeepView for LandlockRule {
    type V = LandlockRuleView;

    open spec fn deep_view(&self) -> LandlockRuleView {
        match self {
            LandlockRule::PathBeneath { path, access } => LandlockRuleView::PathBeneath {
                path: path.deep_view(),
                access: *access,
            },
            LandlockRule::BindTcp(port) => LandlockRuleView::BindTcp(*port),
            LandlockRule::ConnectTcp(port) => LandlockRuleView::ConnectTcp(*port),
        }
    }
}

/// Restrictions: what is forbidden unless a rule allows it, and the rules, in the order in which
/// they are added.
#[derive(Debug, PartialEq, Eq)]
pub struct LandlockRuleset {
    /// The file system access rights that are restricted, if any.
    pub handled_fs: Option<u64>,
    /// Whether binding TCP ports is restricted.
    pub handles_bind: bool,
    /// Whether connecting to TCP ports is restricted.
    pub handles_connect: bool,
    pub rules: Vec<LandlockRule>,
}

/// The model of [`LandlockRuleset`].
pub struct LandlockRulesetView {
    pub handled_fs: Option<u64>,
    pub handles_bind: bool,
    pub handles_connect: bool,
    pub rules: Seq<LandlockRuleView>,
}

impl DeepView for LandlockRuleset {
    type V = LandlockRulesetView;

    open spec fn deep_view(&self) -> LandlockRulesetView {
        LandlockRulesetView {
            handled_fs: self.handled_fs,
            handles_bind: self.handles_bind,
            handles_connect: self.handles_connect,
            rules: self.rules.deep_view(),
        }
    }
}

/// The file system access rights that read, as bits: to execute a file, to read a file, and to
/// list a directory.
pub open spec fn read_rights_of(abi: i32) -> u64 {
    if abi <= 0 {
        0
    } else {
        0xd
    }
}

/// All file system access rights that an ABI of Landlock knows, as bits. The first ABI has
/// thirteen of them. The second adds moving files between directories, the third truncating
/// files, the fifth commands to devices, and the ninth connecting to sockets.
pub open spec fn all_rights_of(abi: i32) -> u64 {
    if abi <= 0 {
        0
    } else if abi == 1 {
        0x1fff
    } else if abi == 2 {
        0x3fff
    } else if abi <= 4 {
        0x7fff
    } else if abi <= 8 {
        0xffff
    } else {
        0x1ffff
    }
}

/// Calls `landlock::AccessFs::from_read`. The ABI is given by its number: one that is not positive
/// stands for no Landlock at all, and one that is too high for the highest known. The rights come
/// back as bits.
#[verifier::external_body]
pub(crate) fn read_rights(abi: i32) -> (rights: u64)
    ensures
        rights == read_rights_of(abi),
{
    AccessFs::from_read(ABI::from(abi)).bits()
}

/// Calls `landlock::AccessFs::from_all`. The ABI is given by its number: one that is not positive
/// stands for no Landlock at all, and one that is too high for the highest known. The rights come
/// back as bits.
#[verifier::external_body]
pub(crate) fn all_rights(abi: i32) -> (rights: u64)
    ensures
        rights == all_rights_of(abi),
{
    AccessFs::from_all(ABI::from(abi)).bits()
}

/// Rules that allow `access` at each of the paths.
pub open spec fn path_rules_of(paths: Seq<Seq<u8>>, access: u64) -> Seq<LandlockRuleView> {
    paths.map_values(|path: Seq<u8>| LandlockRuleView::PathBeneath { path, access })
}

/// Rules that allow binding each of the ports.
pub open spec fn bind_rules_of(ports: Seq<u16>) -> Seq<LandlockRuleView> {
    ports.map_values(|port: u16| LandlockRuleView::BindTcp(port))
}

/// Rules that allow connecting to each of the ports.
pub open spec fn connect_rules_of(ports: Seq<u16>) -> Seq<LandlockRuleView> {
    ports.map_values(|port: u16| LandlockRuleView::ConnectTcp(port))
}

/// The restrictions that carry out a plan. Only what the plan speaks of is restricted: then the
/// paths that are to be read can be read, those that are to be written can be used in every way,
/// and the ports can be used. A plan that speaks of nothing needs no restrictions.
pub open spec fn ruleset_of(plan: LandlockPlanView) -> Option<LandlockRulesetView> {
    if plan.is_empty() {
        None
    } else {
        Some(
            LandlockRulesetView {
                handled_fs: if plan.has_fs_rules() {
                    Some(all_rights_of(RIGHTS_ABI))
                } else {
                    None
                },
                handles_bind: plan.tcp_bind_ports.len() > 0,
                handles_connect: plan.tcp_connect_ports.len() > 0,
                rules: path_rules_of(plan.ro_paths, read_rights_of(RIGHTS_ABI)) + path_rules_of(
                    plan.rw_paths,
                    all_rights_of(RIGHTS_ABI),
                ) + bind_rules_of(plan.tcp_bind_ports) + connect_rules_of(
                    plan.tcp_connect_ports,
                ),
            },
        )
    }
}

fn add_path_rules(rules: &mut Vec<LandlockRule>, paths: &Vec<UnixPath>, access: u64)
    ensures
        final(rules).deep_view() == old(rules).deep_view() + path_rules_of(
            paths.deep_view(),
            access,
        ),
{
    let ghost before = rules.deep_view();
    let ghost added = path_rules_of(paths.deep_view(), access);
    let mut i: usize = 0;
    assert(before + added.take(0) =~= before);
    while i < paths.len()
        invariant
            i <= paths.len(),
            added == path_rules_of(paths.deep_view(), access),
            rules.deep_view() == before + added.take(i as int),
        decreases paths.len() - i,
    {
        let rule = LandlockRule::PathBeneath { path: paths[i].clone(), access };
        let ghost so_far = rules.deep_view();
        rules.push(rule);
        assert(rules.deep_view() =~= so_far.push(rule.deep_view()));
        assert(rules.deep_view() =~= before + added.take(i + 1));
        i += 1;
    }
    assert(added.take(i as int) =~= added);
}

fn add_bind_rules(rules: &mut Vec<LandlockRule>, ports: &Vec<u16>)
    ensures
        final(rules).deep_view() == old(rules).deep_view() + bind_rules_of(ports@),
{
    let ghost before = rules.deep_view();
    let ghost added = bind_rules_of(ports@);
    let mut i: usize = 0;
    assert(before + added.take(0) =~= before);
    while i < ports.len()
        invariant
            i <= ports.len(),
            added == bind_rules_of(ports@),
            rules.deep_view() == before + added.take(i as int),
        decreases ports.len() - i,
    {
        let rule = LandlockRule::BindTcp(ports[i]);
        let ghost so_far = rules.deep_view();
        rules.push(rule);
        assert(rules.deep_view() =~= so_far.push(rule.deep_view()));
        assert(rules.deep_view() =~= before + added.take(i + 1));
        i += 1;
    }
    assert(added.take(i as int) =~= added);
}

fn add_connect_rules(rules: &mut Vec<LandlockRule>, ports: &Vec<u16>)
    ensures
        final(rules).deep_view() == old(rules).deep_view() + connect_rules_of(ports@),
{
    let ghost before = rules.deep_view();
    let ghost added = connect_rules_of(ports@);
    let mut i: usize = 0;
    assert(before + added.take(0) =~= before);
    while i < ports.len()
        invariant
            i <= ports.len(),
            added == connect_rules_of(ports@),
            rules.deep_view() == before + added.take(i as int),
        decreases ports.len() - i,
    {
        let rule = LandlockRule::ConnectTcp(ports[i]);
        let ghost so_far = rules.deep_view();
        rules.push(rule);
        assert(rules.deep_view() =~= so_far.push(rule.deep_view()));
        assert(rules.deep_view() =~= before + added.take(i + 1));
        i += 1;
    }
    assert(added.take(i as int) =~= added);
}

/// The restrictions that carry out the plan.
pub fn apply(plan: &LandlockPlan) -> (ruleset: Option<LandlockRuleset>)
    ensures
        ruleset.deep_view() == ruleset_of(plan.deep_view()),
{
    if plan.is_empty() {
        return None;
    }
    let all = all_rights(RIGHTS_ABI);
    let mut rules: Vec<LandlockRule> = Vec::new();
    assert(rules.deep_view() =~= Seq::empty());
    add_path_rules(&mut rules, &plan.ro_paths, read_rights(RIGHTS_ABI));
    add_path_rules(&mut rules, &plan.rw_paths, all);
    add_bind_rules(&mut rules, &plan.tcp_bind_ports);
    add_connect_rules(&mut rules, &plan.tcp_connect_ports);
    let ghost model = ruleset_of(plan.deep_view())->0;
    assert(rules.deep_view() =~= model.rules);
    let handled_fs = if plan.has_fs_rules() {
        Some(all)
    } else {
        None
    };
    Some(
        LandlockRuleset {
            handled_fs,
            handles_bind: !plan.tcp_bind_ports.is_empty(),
            handles_connect: !plan.tcp_connect_ports.is_empty(),
            rules,
        },
    )
}

/// The ABI that the kernel's answer stands for. A negative answer is an error.
pub open spec fn abi_of(version: i64) -> Option<u32> {
    if 0 <= version <= u32::MAX {
        Some(version as u32)
    } else {
        None
    }
}

/// The ABI of Landlock that the kernel has, if it has Landlock.
pub open spec fn detected_abi_of(host: HostView) -> Result<Option<u32>, HaltView> {
    match host.landlock_version {
        None => Err(HaltView::Ask(QueryView::LandlockVersion)),
        Some(version) => Ok(abi_of(version)),
    }
}

/// The ABI of Landlock that the kernel has, if it has Landlock.
pub fn detect_abi(facts: &HostFacts) -> (abi: Result<Option<u32>, Halt>)
    ensures
        match abi {
            Ok(abi) => detected_abi_of(facts@) == Ok::<_, HaltView>(abi),
            Err(halt) => detected_abi_of(facts@) == Err::<Option<u32>, _>(halt.deep_view()),
        },
{
    match facts.landlock_version {
        None => Err(Halt::Ask(Query::LandlockVersion)),
        Some(version) => Ok(
            if 0 <= version && version <= u32::MAX as i64 {
                Some(version as u32)
            } else {
                None
            },
        ),
    }
}

/// The plan names a path or a port.
pub open spec fn restricts_something(plan: LandlockPlanView) -> bool {
    plan.ro_paths.len() > 0 || plan.rw_paths.len() > 0 || plan.tcp_connect_ports.len() > 0
        || plan.tcp_bind_ports.len() > 0
}

/// A rule allows only what is restricted otherwise, so that each rule has an effect.
pub open spec fn is_handled(rule: LandlockRuleView, ruleset: LandlockRulesetView) -> bool {
    match rule {
        LandlockRuleView::PathBeneath { access, .. } => ruleset.handled_fs matches Some(handled)
            && access & handled == access,
        LandlockRuleView::BindTcp(_) => ruleset.handles_bind,
        LandlockRuleView::ConnectTcp(_) => ruleset.handles_connect,
    }
}

/// Every rule for a plan is about something that is restricted.
pub proof fn rules_are_handled(plan: LandlockPlanView, at: int)
    requires
        restricts_something(plan),
        0 <= at < ruleset_of(plan)->0.rules.len(),
    ensures
        ruleset_of(plan) is Some,
        is_handled(ruleset_of(plan)->0.rules[at], ruleset_of(plan)->0),
{
    assert(0xdu64 & 0xffffu64 == 0xdu64) by (bit_vector);
    assert(0xffffu64 & 0xffffu64 == 0xffffu64) by (bit_vector);
}

/// A port stays allowed exactly when the plan names it. Ports of a kind of which the plan names
/// none are not restricted at all.
pub proof fn named_ports_stay_allowed(plan: LandlockPlanView, port: u16)
    requires
        restricts_something(plan),
    ensures
        ({
            let ruleset = ruleset_of(plan)->0;
            &&& ruleset_of(plan) is Some
            &&& ruleset.rules.contains(LandlockRuleView::BindTcp(port))
                <==> plan.tcp_bind_ports.contains(port)
            &&& ruleset.rules.contains(LandlockRuleView::ConnectTcp(port))
                <==> plan.tcp_connect_ports.contains(port)
            &&& ruleset.handles_bind <==> plan.tcp_bind_ports.len() > 0
            &&& ruleset.handles_connect <==> plan.tcp_connect_ports.len() > 0
        }),
{
    let rules = ruleset_of(plan)->0.rules;
    let ro_len = plan.ro_paths.len();
    let fs_len = ro_len + plan.rw_paths.len();
    let bind_len = fs_len + plan.tcp_bind_ports.len();
    if plan.tcp_bind_ports.contains(port) {
        assert(rules[fs_len + plan.tcp_bind_ports.index_of(port)] == LandlockRuleView::BindTcp(
            port,
        ));
    }
    if plan.tcp_connect_ports.contains(port) {
        assert(rules[bind_len + plan.tcp_connect_ports.index_of(port)]
            == LandlockRuleView::ConnectTcp(port));
    }
    if rules.contains(LandlockRuleView::BindTcp(port)) {
        let i = rules.index_of(LandlockRuleView::BindTcp(port));
        assert(plan.tcp_bind_ports[i - fs_len] == port);
    }
    if rules.contains(LandlockRuleView::ConnectTcp(port)) {
        let i = rules.index_of(LandlockRuleView::ConnectTcp(port));
        assert(plan.tcp_connect_ports[i - bind_len] == port);
    }
}

/// A path is given the rights to read exactly when the plan names it as readable, and all rights
/// exactly when the plan names it as writable. Without such paths the file system is not restricted
/// at all.
pub proof fn named_paths_stay_allowed(plan: LandlockPlanView, path: Seq<u8>)
    requires
        restricts_something(plan),
    ensures
        ({
            let ruleset = ruleset_of(plan)->0;
            &&& ruleset_of(plan) is Some
            &&& ruleset.rules.contains(
                LandlockRuleView::PathBeneath { path, access: read_rights_of(RIGHTS_ABI) },
            ) <==> plan.ro_paths.contains(path)
            &&& ruleset.rules.contains(
                LandlockRuleView::PathBeneath { path, access: all_rights_of(RIGHTS_ABI) },
            ) <==> plan.rw_paths.contains(path)
            &&& ruleset.handled_fs is Some <==> plan.ro_paths.len() > 0 || plan.rw_paths.len() > 0
        }),
{
    let rules = ruleset_of(plan)->0.rules;
    let ro_len = plan.ro_paths.len();
    let read = LandlockRuleView::PathBeneath { path, access: read_rights_of(RIGHTS_ABI) };
    let all = LandlockRuleView::PathBeneath { path, access: all_rights_of(RIGHTS_ABI) };
    if plan.ro_paths.contains(path) {
        assert(rules[plan.ro_paths.index_of(path)] == read);
    }
    if plan.rw_paths.contains(path) {
        assert(rules[ro_len + plan.rw_paths.index_of(path)] == all);
    }
    if rules.contains(read) {
        assert(plan.ro_paths[rules.index_of(read)] == path);
    }
    if rules.contains(all) {
        assert(plan.rw_paths[rules.index_of(all) - ro_len] == path);
    }
}

/// There are restrictions exactly when the plan names a path or a port. They reach as far as the
/// plan does: the file system where it names a path, binding ports where it names one to bind, and
/// connecting to ports where it names one to connect to. A path of either kind restricts all access
/// rights, and one that is only to be read is not given all of them.
pub proof fn restrictions_reach_as_far_as_the_plan(plan: LandlockPlanView)
    ensures
        ruleset_of(plan) is Some <==> restricts_something(plan),
        ruleset_of(plan) matches Some(ruleset) ==> {
            &&& ruleset.handles_bind <==> plan.tcp_bind_ports.len() > 0
            &&& ruleset.handles_connect <==> plan.tcp_connect_ports.len() > 0
            &&& ruleset.handled_fs is Some <==> plan.ro_paths.len() > 0 || plan.rw_paths.len() > 0
            &&& ruleset.handled_fs matches Some(handled) ==> handled == 0xffff
            &&& ruleset.rules.len() == plan.ro_paths.len() + plan.rw_paths.len()
                + plan.tcp_bind_ports.len() + plan.tcp_connect_ports.len()
        },
        plan.is_empty() <==> !restricts_something(plan),
        plan.has_tcp_rules() <==> plan.tcp_connect_ports.len() > 0 || plan.tcp_bind_ports.len() > 0,
        plan.has_fs_rules() <==> plan.ro_paths.len() > 0 || plan.rw_paths.len() > 0,
{
}

/// A path that is only to be read is given the rights to execute and read files and to list
/// directories. One that is to be written is given every right that is restricted.
pub proof fn rights_of_named_paths(plan: LandlockPlanView, at: int)
    ensures
        0 <= at < plan.ro_paths.len() ==> ruleset_of(plan) is Some
            && ruleset_of(plan)->0.rules.contains(
            (LandlockRuleView::PathBeneath { path: plan.ro_paths[at], access: 0xd }),
        ),
        0 <= at < plan.rw_paths.len() ==> ruleset_of(plan) is Some && ruleset_of(
            plan,
        )->0.handled_fs is Some && ruleset_of(plan)->0.rules.contains(
            (LandlockRuleView::PathBeneath {
                path: plan.rw_paths[at],
                access: ruleset_of(plan)->0.handled_fs->0,
            }),
        ),
{
    if 0 <= at < plan.ro_paths.len() {
        assert(ruleset_of(plan)->0.rules[at] == LandlockRuleView::PathBeneath {
            path: plan.ro_paths[at],
            access: 0xd,
        });
    }
    if 0 <= at < plan.rw_paths.len() {
        assert(ruleset_of(plan)->0.rules[plan.ro_paths.len() + at]
            == LandlockRuleView::PathBeneath { path: plan.rw_paths[at], access: 0xffff });
    }
}

/// The kernel's answer is its version of Landlock. A negative answer, or one that is no version,
/// means that there is no Landlock.
pub proof fn answer_is_the_version(host: HostView, version: i64)
    requires
        host.landlock_version == Some(version),
    ensures
        0 <= version <= 0xffff_ffff ==> detected_abi_of(host) == Ok::<_, HaltView>(
            Some(version as u32),
        ),
        version < 0 || version > 0xffff_ffff ==> detected_abi_of(host) == Ok::<
            Option<u32>,
            HaltView,
        >(None),
{
}

} // verus!
