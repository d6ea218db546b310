//! Environment variables, kept in the order of their names.
use vstd::prelude::*;

use crate::byte_string::ByteString;
use crate::order::bytes_less;

verus! {

/// The order of names: by their bytes in UTF-8.
pub open spec fn name_less(a: Seq<char>, b: Seq<char>) -> bool {
    crate::order::lex_less(
        vstd::utf8::encode_utf8(a),
        vstd::utf8::encode_utf8(b),
        crate::order::byte_lt(),
    )
}

/// How many variables at the front have a name that comes before `name`.
pub open spec fn lower_bound(vars: Seq<(Seq<char>, Seq<u8>)>, name: Seq<char>) -> int
    decreases vars.len(),
{
    if vars.len() == 0 || !name_less(vars[0].0, name) {
        0
    } else {
        1 + lower_bound(vars.drop_first(), name)
    }
}

/// The variables with `name` set to `value`.
pub open spec fn with_var(
    vars: Seq<(Seq<char>, Seq<u8>)>,
    name: Seq<char>,
    value: Seq<u8>,
) -> Seq<(Seq<char>, Seq<u8>)> {
    let at = lower_bound(vars, name);
    if at < vars.len() && vars[at].0 == name {
        vars.update(at, (name, value))
    } else {
        vars.insert(at, (name, value))
    }
}

/// The variables with each of the assignments made, one after the other.
pub open spec fn with_vars(
    vars: Seq<(Seq<char>, Seq<u8>)>,
    assignments: Seq<(Seq<char>, Seq<u8>)>,
) -> Seq<(Seq<char>, Seq<u8>)>
    decreases assignments.len(),
{
    if assignments.len() == 0 {
        vars
    } else {
        let (name, value) = assignments.last();
        with_var(with_vars(vars, assignments.drop_last()), name, value)
    }
}

/// The value of the variable `name`.
pub open spec fn value_of(vars: Seq<(Seq<char>, Seq<u8>)>, name: Seq<char>) -> Option<Seq<u8>>
    decreases vars.len(),
{
    if vars.len() == 0 {
        None
    } else if vars[0].0 == name {
        Some(vars[0].1)
    } else {
        value_of(vars.drop_first(), name)
    }
}

/// The variables are in the order of their names, and no name is there twice.
pub open spec fn names_ascend(vars: Seq<(Seq<char>, Seq<u8>)>) -> bool {
    forall|i: int, j: int|
        0 <= i < j < vars.len() ==> name_less((#[trigger] vars[i]).0, (#[trigger] vars[j]).0)
}

/// Variables by name.
#[derive(Clone, Debug, PartialEq, Eq)]
pub struct EnvMap {
    pub entries: Vec<(String, ByteString)>,
}

impl DeepView for EnvMap {
    type V = Seq<(Seq<char>, Seq<u8>)>;

    open spec fn deep_view(&self) -> Seq<(Seq<char>, Seq<u8>)> {
        self.entries.deep_view()
    }
}

impl EnvMap {
    /// The variables are in the order of their names, and no name is there twice.
    pub open spec fn well_formed(&self) -> bool {
        names_ascend(self.deep_view())
    }

    /// No variables.
    pub fn new() -> (vars: EnvMap)
        ensures
            vars.deep_view() == Seq::<(Seq<char>, Seq<u8>)>::empty(),
            vars.well_formed(),
    {
        let vars = EnvMap { entries: Vec::new() };
        assert(vars.deep_view() =~= Seq::empty());
        vars
    }

    /// Sets the variable `name`.
    pub fn insert(&mut self, name: &str, value: &ByteString)
        ensures
            final(self).deep_view() == with_var(old(self).deep_view(), name@, value@),
            old(self).well_formed() ==> final(self).well_formed(),
    {
        let ghost model = self.deep_view();
        let mut at: usize = 0;
        assert(model.skip(0) =~= model);
        while at < self.entries.len() && bytes_less(
            self.entries[at].0.as_str().as_bytes(),
            name.as_bytes(),
        )
            invariant
                at <= self.entries.len(),
                model == self.deep_view(),
                lower_bound(model, name@) == at + lower_bound(model.skip(at as int), name@),
            decreases self.entries.len() - at,
        {
            assert(model.skip(at as int)[0] == self.entries[at as int].deep_view());
            assert(model.skip(at as int).drop_first() =~= model.skip(at + 1));
            at += 1;
        }
        if at < self.entries.len() {
            assert(model.skip(at as int)[0] == self.entries[at as int].deep_view());
        }
        let name = name.to_owned();
        let entry = (name, value.clone());
        let ghost set = entry;
        if at < self.entries.len() && self.entries[at].0 == entry.0 {
            self.entries.set(at, entry);
        } else {
            self.entries.insert(at, entry);
        }
        assert(self.deep_view() =~= with_var(model, set.0@, set.1@));
        proof {
            if names_ascend(model) {
                with_var_keeps_order(model, set.0@, set.1@);
            }
        }
    }

    /// The value of the variable `name`.
    pub fn get(&self, name: &str) -> (value: Option<&ByteString>)
        ensures
            value.deep_view() == value_of(self.deep_view(), name@),
    {
        let ghost model = self.deep_view();
        let wanted = name.to_owned();
        let mut at: usize = 0;
        assert(model.skip(0) =~= model);
        while at < self.entries.len()
            invariant
                at <= self.entries.len(),
                model == self.deep_view(),
                wanted@ == name@,
                value_of(model, name@) == value_of(model.skip(at as int), name@),
            decreases self.entries.len() - at,
        {
            assert(model.skip(at as int)[0] == self.entries[at as int].deep_view());
            if self.entries[at].0 == wanted {
                return Some(&self.entries[at].1);
            }
            assert(model.skip(at as int).drop_first() =~= model.skip(at + 1));
            at += 1;
        }
        None
    }

    /// Makes the assignments, one after the other.
    pub fn insert_all(&mut self, assignments: &Vec<(String, ByteString)>)
        ensures
            final(self).deep_view() == with_vars(old(self).deep_view(), assignments.deep_view()),
            old(self).well_formed() ==> final(self).well_formed(),
    {
        let ghost model = self.deep_view();
        let ghost steps = assignments.deep_view();
        let mut i: usize = 0;
        assert(steps.take(0) =~= Seq::empty());
        while i < assignments.len()
            invariant
                i <= assignments.len(),
                steps == assignments.deep_view(),
                model == old(self).deep_view(),
                self.deep_view() == with_vars(model, steps.take(i as int)),
                old(self).well_formed() ==> self.well_formed(),
            decreases assignments.len() - i,
        {
            assert(steps.take(i + 1).drop_last() =~= steps.take(i as int));
            assert(steps.take(i + 1).last() == assignments[i as int].deep_view());
            self.insert(assignments[i].0.as_str(), &assignments[i].1);
            i += 1;
        }
        assert(steps.take(i as int) =~= steps);
    }
}

/// The order of names is irreflexive, transitive, and leaves apart only names that are the same.
pub proof fn name_less_is_an_order(a: Seq<char>, b: Seq<char>, c: Seq<char>)
    ensures
        !name_less(a, a),
        name_less(a, b) && name_less(b, c) ==> name_less(a, c),
        a == b || name_less(a, b) || name_less(b, a),
{
    let lt = crate::order::byte_lt();
    let lex = |x: Seq<u8>, y: Seq<u8>| crate::order::lex_less(x, y, lt);
    let x = vstd::utf8::encode_utf8(a);
    let y = vstd::utf8::encode_utf8(b);
    let z = vstd::utf8::encode_utf8(c);
    crate::order::byte_lt_is_strict_total();
    crate::order::lex_is_strict_total(lt);
    vstd::utf8::encode_utf8_decode_utf8(a);
    vstd::utf8::encode_utf8_decode_utf8(b);
    assert(!lex(x, x));
    assert(lex(x, y) == name_less(a, b));
    assert(lex(y, z) == name_less(b, c));
}

proof fn lower_bound_splits(vars: Seq<(Seq<char>, Seq<u8>)>, name: Seq<char>)
    ensures
        0 <= lower_bound(vars, name) <= vars.len(),
        forall|i: int|
            0 <= i < lower_bound(vars, name) ==> name_less((#[trigger] vars[i]).0, name),
        lower_bound(vars, name) < vars.len() ==> !name_less(
            vars[lower_bound(vars, name)].0,
            name,
        ),
    decreases vars.len(),
{
    if !(vars.len() == 0 || !name_less(vars[0].0, name)) {
        let rest = vars.drop_first();
        lower_bound_splits(rest, name);
        assert forall|i: int| 0 <= i < lower_bound(vars, name) implies name_less(
            (#[trigger] vars[i]).0,
            name,
        ) by {
            if i > 0 {
                assert(rest[i - 1] == vars[i]);
            }
        }
    }
}

proof fn with_var_keeps_order(vars: Seq<(Seq<char>, Seq<u8>)>, name: Seq<char>, value: Seq<u8>)
    requires
        names_ascend(vars),
    ensures
        names_ascend(with_var(vars, name, value)),
{
    lower_bound_splits(vars, name);
    let at = lower_bound(vars, name);
    let result = with_var(vars, name, value);
    assert forall|i: int, j: int| 0 <= i < j < result.len() implies name_less(
        (#[trigger] result[i]).0,
        (#[trigger] result[j]).0,
    ) by {
        if at < vars.len() && vars[at].0 == name {
            assert(result[i].0 == vars[i].0 && result[j].0 == vars[j].0);
        } else {
            let from = if i < at { i } else { i - 1 };
            let to = if j < at { j } else { j - 1 };
            if i == at {
                assert(result[j] == vars[to]);
                name_less_is_an_order(vars[at].0, name, vars[to].0);
                name_less_is_an_order(name, vars[at].0, vars[to].0);
            } else if j == at {
                assert(result[i] == vars[from]);
            } else {
                assert(result[i] == vars[from] && result[j] == vars[to]);
            }
        }
    }
}

/// In variables whose names are all different, a name has the value that stands beside it.
pub proof fn value_stands_beside_name(vars: Seq<(Seq<char>, Seq<u8>)>, name: Seq<char>)
    requires
        names_ascend(vars),
    ensures
        forall|i: int|
            0 <= i < vars.len() && (#[trigger] vars[i]).0 == name ==> value_of(vars, name) == Some(
                vars[i].1,
            ),
        (forall|i: int| 0 <= i < vars.len() ==> (#[trigger] vars[i]).0 != name) ==> value_of(
            vars,
            name,
        ) is None,
    decreases vars.len(),
{
    if vars.len() > 0 {
        let rest = vars.drop_first();
        assert(names_ascend(rest)) by {
            assert forall|i: int, j: int| 0 <= i < j < rest.len() implies name_less(
                (#[trigger] rest[i]).0,
                (#[trigger] rest[j]).0,
            ) by {
                assert(rest[i] == vars[i + 1] && rest[j] == vars[j + 1]);
            }
        }
        value_stands_beside_name(rest, name);
        assert forall|i: int| 0 <= i < rest.len() implies #[trigger] rest[i] == vars[i + 1] by {}
        assert forall|i: int| 0 <= i < vars.len() && (#[trigger] vars[i]).0 == name implies value_of(
            vars,
            name,
        ) == Some(vars[i].1) by {
            if i > 0 {
                assert(rest[i - 1] == vars[i]);
                name_less_is_an_order(vars[0].0, vars[i].0, name);
            }
        }
    }
}

/// Setting a variable gives it that value and leaves the values of all others as they were.
pub proof fn with_var_sets_one(
    vars: Seq<(Seq<char>, Seq<u8>)>,
    name: Seq<char>,
    value: Seq<u8>,
    other: Seq<char>,
)
    requires
        names_ascend(vars),
    ensures
        names_ascend(with_var(vars, name, value)),
        value_of(with_var(vars, name, value), other) == if other == name {
            Some(value)
        } else {
            value_of(vars, other)
        },
{
    let result = with_var(vars, name, value);
    let at = lower_bound(vars, name);
    lower_bound_splits(vars, name);
    with_var_keeps_order(vars, name, value);
    value_stands_beside_name(vars, other);
    value_stands_beside_name(result, other);
    assert(result[at] == (name, value));
    if other != name {
        if exists|i: int| 0 <= i < vars.len() && (#[trigger] vars[i]).0 == other {
            let i = choose|i: int| 0 <= i < vars.len() && (#[trigger] vars[i]).0 == other;
            let to = if at < vars.len() && vars[at].0 == name {
                i
            } else if i < at {
                i
            } else {
                i + 1
            };
            assert(result[to] == vars[i]);
        } else {
            assert forall|i: int| 0 <= i < result.len() implies (#[trigger] result[i]).0
                != other by {
                if i != at {
                    let from = if at < vars.len() && vars[at].0 == name {
                        i
                    } else if i < at {
                        i
                    } else {
                        i - 1
                    };
                    assert(result[i] == vars[from]);
                }
            }
        }
    }
}

/// The last of the assignments to `name` gives its value, and without one the value stays.
pub proof fn with_vars_sets_the_last(
    vars: Seq<(Seq<char>, Seq<u8>)>,
    assignments: Seq<(Seq<char>, Seq<u8>)>,
    name: Seq<char>,
)
    requires
        names_ascend(vars),
    ensures
        names_ascend(with_vars(vars, assignments)),
        forall|i: int|
            0 <= i < assignments.len() && (#[trigger] assignments[i]).0 == name && (forall|j: int|
                i < j < assignments.len() ==> (#[trigger] assignments[j]).0 != name) ==> value_of(
                with_vars(vars, assignments),
                name,
            ) == Some(assignments[i].1),
        (forall|i: int|
            0 <= i < assignments.len() ==> (#[trigger] assignments[i]).0 != name) ==> value_of(
            with_vars(vars, assignments),
            name,
        ) == value_of(vars, name),
    decreases assignments.len(),
{
    if assignments.len() > 0 {
        let earlier = assignments.drop_last();
        let (set, value) = assignments.last();
        with_vars_sets_the_last(vars, earlier, name);
        with_var_sets_one(with_vars(vars, earlier), set, value, name);
        assert forall|i: int| 0 <= i < earlier.len() implies #[trigger] earlier[i]
            == assignments[i] by {}
        assert forall|i: int|
            0 <= i < assignments.len() && (#[trigger] assignments[i]).0 == name && (forall|j: int|
                i < j < assignments.len() ==> (
                #[trigger] assignments[j]).0 != name) implies value_of(
            with_vars(vars, assignments),
            name,
        ) == Some(assignments[i].1) by {
            if i < assignments.len() - 1 {
                assert(assignments[assignments.len() - 1].0 != name);
                assert(earlier[i].0 == name);
            }
        }
        if forall|i: int| 0 <= i < assignments.len() ==> (#[trigger] assignments[i]).0 != name {
            assert(assignments[assignments.len() - 1].0 != name);
            assert forall|i: int| 0 <= i < earlier.len() implies (#[trigger] earlier[i]).0
                != name by {
                assert(earlier[i] == assignments[i]);
            }
        }
    }
}

} // verus!
