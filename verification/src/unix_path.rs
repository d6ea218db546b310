//! Paths as the system takes them: bytes, with `/` between the components.
//!
//! Two paths are the same when their components are: repeated separators, a separator at the end
//! and `.` components inside a path make no difference.
use vstd::prelude::*;
use vstd::slice::slice_subrange;

use crate::order::{bytes_equal, bytes_less};
use crate::text::lossy_text;

verus! {

/// The byte between two components of a path.
pub const SEPARATOR: u8 = 47;

/// The byte of which `.` and `..` are made.
pub const DOT: u8 = 46;

/// A Unix path.
#[derive(Debug)]
pub struct UnixPath {
    pub bytes: Vec<u8>,
}

impl View for UnixPath {
    type V = Seq<u8>;

    open spec fn view(&self) -> Seq<u8> {
        self.bytes@
    }
}

impl DeepView for UnixPath {
    type V = Seq<u8>;

    open spec fn deep_view(&self) -> Seq<u8> {
        self.bytes@
    }
}

/// A path is absolute when it starts with a separator.
pub open spec fn is_absolute(path: Seq<u8>) -> bool {
    path.len() > 0 && path[0] == SEPARATOR
}

/// The path `path` as seen from `base`: an absolute one stays as it is, a relative one is put
/// behind `base`, with one separator between the two unless `base` is empty or ends in one.
pub open spec fn join(base: Seq<u8>, path: Seq<u8>) -> Seq<u8> {
    if is_absolute(path) {
        path
    } else if base.len() == 0 || base.last() == SEPARATOR {
        base + path
    } else {
        base.push(SEPARATOR) + path
    }
}

/// Where the run of bytes without a separator that starts at `at` ends.
pub open spec fn segment_end(path: Seq<u8>, at: int) -> int
    decreases path.len() - at,
{
    if at >= path.len() || path[at] == SEPARATOR {
        at
    } else {
        segment_end(path, at + 1)
    }
}

/// The bytes from `from` to `to` make no component: they are empty, or `.` anywhere but at the
/// very start of a path.
pub open spec fn is_skipped(path: Seq<u8>, from: int, to: int) -> bool {
    from == to || (to == from + 1 && path[from] == DOT && from > 0)
}

/// A run of bytes ends no earlier than it starts, and inside the path.
pub proof fn segment_end_is_not_before(path: Seq<u8>, at: int)
    ensures
        at <= segment_end(path, at),
        at <= path.len() ==> segment_end(path, at) <= path.len(),
    decreases path.len() - at,
{
    if !(at >= path.len() || path[at] == SEPARATOR) {
        segment_end_is_not_before(path, at + 1);
    }
}

/// The spans of the components that lie at `at` or behind.
pub open spec fn spans_from(path: Seq<u8>, at: int) -> Seq<(int, int)>
    decreases path.len() + 1 - at,
{
    if at >= path.len() {
        Seq::empty()
    } else {
        let to = segment_end(path, at);
        proof {
            segment_end_is_not_before(path, at);
        }
        let rest = spans_from(path, to + 1);
        if is_skipped(path, at, to) {
            rest
        } else {
            seq![(at, to)] + rest
        }
    }
}

/// Where the components of a path stand in it. The root directory of an absolute path is its
/// first component.
pub open spec fn spans(path: Seq<u8>) -> Seq<(int, int)> {
    if is_absolute(path) {
        seq![(0int, 1int)] + spans_from(path, 1)
    } else {
        spans_from(path, 0)
    }
}

/// The components of a path.
pub open spec fn components(path: Seq<u8>) -> Seq<Seq<u8>> {
    spans(path).map_values(|span: (int, int)| path.subrange(span.0, span.1))
}

/// Two paths that have the same components.
pub open spec fn same_path(a: Seq<u8>, b: Seq<u8>) -> bool {
    components(a) == components(b)
}

/// The kinds of components in their order: the root directory, `.`, `..`, and names.
pub open spec fn component_rank(component: Seq<u8>) -> int {
    if component == seq![SEPARATOR] {
        0
    } else if component == seq![DOT] {
        1
    } else if component == seq![DOT, DOT] {
        2
    } else {
        3
    }
}

/// The order of components: by kind, and names by their bytes.
pub open spec fn component_lt() -> spec_fn(Seq<u8>, Seq<u8>) -> bool {
    |a: Seq<u8>, b: Seq<u8>|
        component_rank(a) < component_rank(b) || (component_rank(a) == 3 && component_rank(b) == 3
            && crate::order::lex_less(a, b, crate::order::byte_lt()))
}

/// The order of paths: component by component.
pub open spec fn path_less(a: Seq<u8>, b: Seq<u8>) -> bool {
    crate::order::lex_less(components(a), components(b), component_lt())
}

/// The path without its last component. The root directory and the empty path have none.
pub open spec fn parent_of(path: Seq<u8>) -> Option<Seq<u8>> {
    let parts = spans(path);
    if parts.len() == 0 || (parts.len() == 1 && is_absolute(path)) {
        None
    } else if parts.len() == 1 {
        Some(Seq::empty())
    } else {
        Some(path.subrange(0, parts[parts.len() - 2].1))
    }
}

/// What is left of `path` behind the components of `base`, where `path` starts with those.
pub open spec fn strip_prefix_of(path: Seq<u8>, base: Seq<u8>) -> Option<Seq<u8>> {
    let parts = spans(path);
    let skipped = components(base).len() as int;
    if !components(base).is_prefix_of(components(path)) {
        None
    } else if skipped == parts.len() {
        Some(Seq::empty())
    } else {
        Some(path.subrange(parts[skipped].0, parts.last().1))
    }
}

/// Spans as they are held by a machine, as mathematical ones.
pub open spec fn exact_spans(spans: Seq<(usize, usize)>) -> Seq<(int, int)> {
    spans.map_values(|span: (usize, usize)| (span.0 as int, span.1 as int))
}

proof fn spans_from_are_inside(path: Seq<u8>, at: int)
    requires
        0 <= at,
    ensures
        forall|i: int|
            0 <= i < spans_from(path, at).len() ==> {
                let span = #[trigger] spans_from(path, at)[i];
                at <= span.0 < span.1 <= path.len()
            },
    decreases path.len() + 1 - at,
{
    if at < path.len() {
        segment_end_is_not_before(path, at);
        let rest = spans_from(path, segment_end(path, at) + 1);
        spans_from_are_inside(path, segment_end(path, at) + 1);
        assert forall|i: int| 0 <= i < spans_from(path, at).len() implies {
            let span = #[trigger] spans_from(path, at)[i];
            at <= span.0 < span.1 <= path.len()
        } by {
            let shift: int = if is_skipped(path, at, segment_end(path, at)) { 0 } else { 1 };
            if i >= shift {
                assert(spans_from(path, at)[i] == rest[i - shift]);
            }
        }
    }
}

/// Every component of a path is a stretch of at least one byte of it.
pub proof fn spans_are_inside(path: Seq<u8>)
    ensures
        forall|i: int|
            0 <= i < spans(path).len() ==> {
                let span = #[trigger] spans(path)[i];
                0 <= span.0 < span.1 <= path.len()
            },
{
    spans_from_are_inside(path, 0);
    spans_from_are_inside(path, 1);
}

proof fn spans_from_are_ordered(path: Seq<u8>, at: int)
    requires
        0 <= at,
    ensures
        forall|i: int, j: int|
            0 <= i < j < spans_from(path, at).len() ==> (#[trigger] spans_from(path, at)[i]).1 < (
            #[trigger] spans_from(path, at)[j]).0,
    decreases path.len() + 1 - at,
{
    if at < path.len() {
        segment_end_is_not_before(path, at);
        let next = segment_end(path, at) + 1;
        spans_from_are_ordered(path, next);
        spans_from_are_inside(path, next);
        let rest = spans_from(path, next);
        assert forall|i: int, j: int| 0 <= i < j < spans_from(path, at).len() implies (
        #[trigger] spans_from(path, at)[i]).1 < (#[trigger] spans_from(path, at)[j]).0 by {
            let shift: int = if is_skipped(path, at, segment_end(path, at)) { 0 } else { 1 };
            assert(spans_from(path, at)[j] == rest[j - shift]);
            if i >= shift {
                assert(spans_from(path, at)[i] == rest[i - shift]);
            }
        }
    }
}

proof fn spans_are_ordered(path: Seq<u8>)
    ensures
        forall|i: int, j: int|
            0 <= i < j < spans(path).len() ==> (#[trigger] spans(path)[i]).1 <= (
            #[trigger] spans(path)[j]).0,
{
    spans_from_are_ordered(path, 0);
    spans_from_are_ordered(path, 1);
    spans_from_are_inside(path, 1);
}

proof fn component_lt_is_strict_total()
    ensures
        crate::order::strict_total(component_lt()),
{
    let byte_lt = crate::order::byte_lt();
    let lex = |a: Seq<u8>, b: Seq<u8>| crate::order::lex_less(a, b, byte_lt);
    let lt = component_lt();
    crate::order::byte_lt_is_strict_total();
    crate::order::lex_is_strict_total(byte_lt);
    assert forall|x: Seq<u8>| !#[trigger] lt(x, x) by {
        assert(!lex(x, x));
    }
    assert forall|x: Seq<u8>, y: Seq<u8>| #![trigger lt(x, y)] x == y || lt(x, y) || lt(y, x) by {
        let _ = lex(x, y);
    }
    assert forall|x: Seq<u8>, y: Seq<u8>, z: Seq<u8>|
        #![trigger lt(x, y), lt(y, z)]
        lt(x, y) && lt(y, z) implies lt(x, z) by {
        if component_rank(x) == 3 && component_rank(z) == 3 {
            assert(lex(x, y) && lex(y, z));
            assert(lex(x, z));
        }
    }
}

/// The order of paths is irreflexive, transitive, and leaves apart only paths that are the same.
pub proof fn path_less_is_an_order(a: Seq<u8>, b: Seq<u8>, c: Seq<u8>)
    ensures
        !path_less(a, a),
        path_less(a, b) && path_less(b, c) ==> path_less(a, c),
        same_path(a, b) || path_less(a, b) || path_less(b, a),
        same_path(a, b) ==> !path_less(a, b),
{
    let lt = component_lt();
    let lex = |x: Seq<Seq<u8>>, y: Seq<Seq<u8>>| crate::order::lex_less(x, y, lt);
    component_lt_is_strict_total();
    crate::order::lex_is_strict_total(lt);
    assert(!lex(components(a), components(a)));
    assert(lex(components(a), components(b)) == path_less(a, b));
    assert(lex(components(b), components(c)) == path_less(b, c));
}

/// Whether the bytes are of the kind that comes at `rank` among components.
fn rank_of(component: &[u8]) -> (rank: u8)
    ensures
        rank == component_rank(component@),
{
    let ghost root = seq![SEPARATOR];
    let ghost here = seq![DOT];
    let ghost above = seq![DOT, DOT];
    assert(root.len() == 1 && root[0] == SEPARATOR);
    assert(here.len() == 1 && here[0] == DOT);
    assert(above.len() == 2 && above[0] == DOT && above[1] == DOT);
    if component.len() == 1 && component[0] == SEPARATOR {
        assert(component@ =~= root);
        0
    } else if component.len() == 1 && component[0] == DOT {
        assert(component@ =~= here);
        1
    } else if component.len() == 2 && component[0] == DOT && component[1] == DOT {
        assert(component@ =~= above);
        2
    } else {
        3
    }
}

impl UnixPath {
    /// The path that the bytes spell.
    pub fn from_bytes(bytes: Vec<u8>) -> (path: UnixPath)
        ensures
            path@ == bytes@,
    {
        UnixPath { bytes }
    }

    /// The path that the text spells in UTF-8.
    pub fn from_text(text: &str) -> (path: UnixPath)
        ensures
            path@ == vstd::utf8::encode_utf8(text@),
    {
        UnixPath { bytes: vstd::slice::slice_to_vec(text.as_bytes()) }
    }

    /// The bytes of the path.
    pub fn as_bytes(&self) -> (bytes: &[u8])
        ensures
            bytes@ == self@,
    {
        self.bytes.as_slice()
    }

    /// The path as text, for messages: what is not UTF-8 in it is replaced.
    pub fn display(&self) -> (text: String)
        ensures
            text@ == crate::text::shown_of(self@),
    {
        lossy_text(self.bytes.as_slice())
    }

    /// Whether the path starts at the root directory.
    pub fn is_absolute(&self) -> (absolute: bool)
        ensures
            absolute == is_absolute(self@),
    {
        self.bytes.len() > 0 && self.bytes[0] == SEPARATOR
    }

    /// `path` as seen from this path.
    pub fn join(&self, path: &UnixPath) -> (joined: UnixPath)
        ensures
            joined@ == join(self@, path@),
    {
        if path.is_absolute() {
            return path.clone();
        }
        let mut bytes = self.bytes.clone();
        assert(bytes@ =~= self@);
        if bytes.len() > 0 && bytes[bytes.len() - 1] != SEPARATOR {
            bytes.push(SEPARATOR);
        }
        let ghost base = bytes@;
        let mut tail = path.bytes.clone();
        assert(tail@ =~= path@);
        bytes.append(&mut tail);
        UnixPath { bytes }
    }

    /// Where the components of the path stand in it.
    pub fn spans(&self) -> (found: Vec<(usize, usize)>)
        ensures
            exact_spans(found@) == spans(self@),
    {
        let mut found: Vec<(usize, usize)> = Vec::new();
        let mut at: usize = 0;
        if self.is_absolute() {
            found.push((0, 1));
            at = 1;
        }
        assert(exact_spans(found@) + spans_from(self@, at as int) =~= spans(self@));
        while at < self.bytes.len()
            invariant
                exact_spans(found@) + spans_from(self@, at as int) == spans(self@),
            decreases self.bytes.len() - at,
        {
            let from: usize = at;
            while at < self.bytes.len() && self.bytes[at] != SEPARATOR
                invariant
                    from <= at <= self.bytes.len(),
                    segment_end(self@, from as int) == segment_end(self@, at as int),
                decreases self.bytes.len() - at,
            {
                at += 1;
            }
            let ghost before = exact_spans(found@);
            if !(from == at || (at == from + 1 && self.bytes[from] == DOT && from > 0)) {
                found.push((from, at));
                assert(exact_spans(found@) =~= before.push((from as int, at as int)));
            }
            if at < self.bytes.len() {
                at += 1;
            } else {
                assert(spans_from(self@, at + 1) =~= spans_from(self@, at as int));
            }
            assert(exact_spans(found@) + spans_from(self@, at as int) =~= before + spans_from(
                self@,
                from as int,
            ));
        }
        assert(exact_spans(found@) =~= spans(self@));
        found
    }

    /// Whether both paths have the same components.
    pub fn same(&self, other: &UnixPath) -> (same: bool)
        ensures
            same == same_path(self@, other@),
    {
        let ours = self.spans();
        let theirs = other.spans();
        assert(components(self@).len() == ours.len());
        assert(components(other@).len() == theirs.len());
        if ours.len() != theirs.len() {
            return false;
        }
        let count = common_components(self, &ours, other, &theirs);
        assert(count == ours.len() ==> components(self@) =~= components(other@));
        count == ours.len()
    }

    /// Whether the path comes before the other one.
    pub fn less(&self, other: &UnixPath) -> (less: bool)
        ensures
            less == path_less(self@, other@),
    {
        let ours = self.spans();
        let theirs = other.spans();
        let ghost a = components(self@);
        let ghost b = components(other@);
        assert(a.len() == ours.len() && b.len() == theirs.len());
        let count = common_components(self, &ours, other, &theirs);
        proof {
            skip_common(a, b, count as int);
        }
        if count == theirs.len() {
            return false;
        }
        if count == ours.len() {
            return true;
        }
        let left = component_at(self, &ours, count);
        let right = component_at(other, &theirs, count);
        assert(a.skip(count as int)[0] == left@);
        assert(b.skip(count as int)[0] == right@);
        let left_rank = rank_of(left);
        let right_rank = rank_of(right);
        left_rank < right_rank || (left_rank == 3 && right_rank == 3 && bytes_less(left, right))
    }

    /// The path without its last component.
    pub fn parent(&self) -> (parent: Option<UnixPath>)
        ensures
            parent.deep_view() == parent_of(self@),
    {
        let parts = self.spans();
        assert(parts.len() == spans(self@).len());
        if parts.len() == 0 || (parts.len() == 1 && self.is_absolute()) {
            return None;
        }
        if parts.len() == 1 {
            let parent = UnixPath { bytes: Vec::new() };
            assert(parent@ =~= Seq::empty());
            return Some(parent);
        }
        let to: usize = parts[parts.len() - 2].1;
        proof {
            spans_are_inside(self@);
            assert(spans(self@)[parts.len() - 2] == exact_spans(parts@)[parts.len() - 2]);
        }
        Some(UnixPath { bytes: vstd::slice::slice_to_vec(slice_subrange(self.bytes.as_slice(), 0, to)) })
    }

    /// What is left of the path behind the components of `base`, if it starts with those.
    pub fn strip_prefix(&self, base: &UnixPath) -> (rest: Option<UnixPath>)
        ensures
            rest.deep_view() == strip_prefix_of(self@, base@),
    {
        let parts = self.spans();
        let skipped = base.spans();
        let ghost path = components(self@);
        let ghost prefix = components(base@);
        assert(path.len() == parts.len() && prefix.len() == skipped.len());
        let count = common_components(self, &parts, base, &skipped);
        assert(count == skipped.len() <==> prefix.is_prefix_of(path)) by {
            if count == skipped.len() {
                assert(prefix =~= path.subrange(0, prefix.len() as int));
            } else if prefix.is_prefix_of(path) {
                assert(prefix[count as int] == path[count as int]);
            }
        }
        if count < skipped.len() {
            return None;
        }
        if skipped.len() == parts.len() {
            let rest = UnixPath { bytes: Vec::new() };
            assert(rest@ =~= Seq::empty());
            return Some(rest);
        }
        let from: usize = parts[skipped.len()].0;
        let to: usize = parts[parts.len() - 1].1;
        proof {
            spans_are_inside(self@);
            spans_are_ordered(self@);
            assert(spans(self@)[parts.len() - 1] == exact_spans(parts@)[parts.len() - 1]);
            assert(spans(self@)[skipped.len() as int] == exact_spans(parts@)[skipped.len() as int]);
        }
        Some(
            UnixPath {
                bytes: vstd::slice::slice_to_vec(slice_subrange(self.bytes.as_slice(), from, to)),
            },
        )
    }
}

proof fn skip_common(a: Seq<Seq<u8>>, b: Seq<Seq<u8>>, count: int)
    requires
        0 <= count <= a.len(),
        count <= b.len(),
        forall|i: int| 0 <= i < count ==> a[i] == b[i],
    ensures
        crate::order::lex_less(a, b, component_lt()) == crate::order::lex_less(
            a.skip(count),
            b.skip(count),
            component_lt(),
        ),
    decreases count,
{
    if count == 0 {
        assert(a.skip(0) =~= a);
        assert(b.skip(0) =~= b);
    } else {
        skip_common(a.drop_first(), b.drop_first(), count - 1);
        assert(a.drop_first().skip(count - 1) =~= a.skip(count));
        assert(b.drop_first().skip(count - 1) =~= b.skip(count));
    }
}

/// The bytes of one component.
fn component_at<'a>(path: &'a UnixPath, parts: &Vec<(usize, usize)>, at: usize) -> (component:
    &'a [u8])
    requires
        exact_spans(parts@) == spans(path@),
        at < parts.len(),
    ensures
        component@ == components(path@)[at as int],
{
    proof {
        spans_are_inside(path@);
        assert(spans(path@)[at as int] == exact_spans(parts@)[at as int]);
    }
    slice_subrange(path.bytes.as_slice(), parts[at].0, parts[at].1)
}

/// How many components the two paths have in common from the start.
fn common_components(
    left: &UnixPath,
    left_parts: &Vec<(usize, usize)>,
    right: &UnixPath,
    right_parts: &Vec<(usize, usize)>,
) -> (count: usize)
    requires
        exact_spans(left_parts@) == spans(left@),
        exact_spans(right_parts@) == spans(right@),
    ensures
        count <= left_parts.len(),
        count <= right_parts.len(),
        forall|i: int| 0 <= i < count ==> components(left@)[i] == components(right@)[i],
        count < left_parts.len() && count < right_parts.len() ==> components(left@)[count as int]
            != components(right@)[count as int],
{
    let mut count: usize = 0;
    while count < left_parts.len() && count < right_parts.len()
        invariant
            exact_spans(left_parts@) == spans(left@),
            exact_spans(right_parts@) == spans(right@),
            count <= left_parts.len(),
            count <= right_parts.len(),
            forall|i: int| 0 <= i < count ==> components(left@)[i] == components(right@)[i],
        decreases left_parts.len() - count,
    {
        let ours = component_at(left, left_parts, count);
        let theirs = component_at(right, right_parts, count);
        if !bytes_equal(ours, theirs) {
            return count;
        }
        count += 1;
    }
    count
}

impl Clone for UnixPath {
    fn clone(&self) -> (copy: UnixPath)
        ensures
            copy@ == self@,
    {
        let bytes = self.bytes.clone();
        assert(bytes@ =~= self.bytes@);
        UnixPath { bytes }
    }
}

impl PartialEq for UnixPath {
    fn eq(&self, other: &UnixPath) -> (equal: bool) {
        self.same(other)
    }
}

impl vstd::std_specs::cmp::PartialEqSpecImpl for UnixPath {
    open spec fn obeys_eq_spec() -> bool {
        true
    }

    open spec fn eq_spec(&self, other: &UnixPath) -> bool {
        same_path(self@, other@)
    }
}

impl Eq for UnixPath {

}

/// Spans moved by some bytes.
pub open spec fn shifted(spans: Seq<(int, int)>, by: int) -> Seq<(int, int)> {
    spans.map_values(|span: (int, int)| (span.0 + by, span.1 + by))
}

/// No component of the path goes on across `at`.
pub open spec fn is_boundary(path: Seq<u8>, at: int) -> bool {
    0 <= at <= path.len() && (at < path.len() ==> path[at] == SEPARATOR)
}

/// The bytes from `at` up to the next separator are a dot.
pub open spec fn is_dot_at(path: Seq<u8>, at: int) -> bool {
    at < path.len() && path[at] == DOT && segment_end(path, at) == at + 1
}

proof fn segment_end_is_boundary(path: Seq<u8>, at: int)
    requires
        0 <= at <= path.len(),
    ensures
        is_boundary(path, segment_end(path, at)),
    decreases path.len() - at,
{
    if at < path.len() && path[at] != SEPARATOR {
        segment_end_is_boundary(path, at + 1);
    }
}

proof fn segment_end_in_part(path: Seq<u8>, from: int, to: int, at: int)
    requires
        0 <= from <= to,
        is_boundary(path, to),
        0 <= at <= to - from,
    ensures
        segment_end(path, from + at) == from + segment_end(path.subrange(from, to), at),
    decreases to - from - at,
{
    let part = path.subrange(from, to);
    if at < part.len() && part[at] != SEPARATOR {
        segment_end_in_part(path, from, to, at + 1);
    }
}

proof fn spans_from_in_part(path: Seq<u8>, from: int, to: int, at: int)
    requires
        0 <= from <= to,
        is_boundary(path, to),
        0 <= at <= to - from + 1,
        at == 0 && from > 0 ==> !is_dot_at(path, from),
    ensures
        spans_from(path, from + at) == shifted(
            spans_from(path.subrange(from, to), at),
            from,
        ) + spans_from(path, to),
    decreases to - from + 1 - at,
{
    let part = path.subrange(from, to);
    let inside = spans_from(part, at);
    if at >= part.len() {
        assert(shifted(inside, from) =~= Seq::empty());
        if at == part.len() + 1 && to < path.len() {
            assert(segment_end(path, to) == to);
        }
        assert(spans_from(path, from + at) =~= shifted(inside, from) + spans_from(path, to));
    } else {
        let end = segment_end(part, at);
        segment_end_in_part(path, from, to, at);
        segment_end_is_not_before(part, at);
        spans_from_in_part(path, from, to, end + 1);
        assert(is_skipped(path, from + at, from + end) == is_skipped(part, at, end));
        assert(spans_from(path, from + at) =~= shifted(inside, from) + spans_from(path, to));
    }
}

proof fn last_span_ends_at_boundary(path: Seq<u8>, at: int)
    requires
        0 <= at,
        spans_from(path, at).len() > 0,
    ensures
        at < spans_from(path, at).last().1 <= path.len(),
        is_boundary(path, spans_from(path, at).last().1),
        spans_from(path, spans_from(path, at).last().1).len() == 0,
    decreases path.len() + 1 - at,
{
    let to = segment_end(path, at);
    segment_end_is_not_before(path, at);
    segment_end_is_boundary(path, at);
    if spans_from(path, to + 1).len() > 0 {
        last_span_ends_at_boundary(path, to + 1);
    } else {
        assert(segment_end(path, to) == to);
    }
}

proof fn spans_from_a_span(path: Seq<u8>, at: int, i: int)
    requires
        0 <= at,
        0 <= i < spans_from(path, at).len(),
    ensures
        spans_from(path, at).skip(i) == spans_from(path, spans_from(path, at)[i].0),
        at <= spans_from(path, at)[i].0 < path.len(),
        path[spans_from(path, at)[i].0] != SEPARATOR,
        spans_from(path, at)[i].0 > 0 ==> !is_dot_at(path, spans_from(path, at)[i].0),
    decreases path.len() + 1 - at,
{
    let to = segment_end(path, at);
    let rest = spans_from(path, to + 1);
    segment_end_is_not_before(path, at);
    if is_skipped(path, at, to) {
        spans_from_a_span(path, to + 1, i);
    } else if i == 0 {
        assert(spans_from(path, at).skip(0) =~= spans_from(path, at));
    } else {
        spans_from_a_span(path, to + 1, i - 1);
        assert(spans_from(path, at).skip(i) =~= rest.skip(i - 1));
    }
}

/// What is left of a path behind the components of another is the rest of its components.
pub proof fn strip_prefix_leaves_the_rest(path: Seq<u8>, base: Seq<u8>)
    requires
        strip_prefix_of(path, base) is Some,
    ensures
        components(path) == components(base) + components(strip_prefix_of(path, base)->0),
        components(base).len() > 0 ==> {
            let rest = strip_prefix_of(path, base)->0;
            !is_absolute(rest) && !is_dot_at(rest, 0)
        },
{
    let parts = spans(path);
    let skipped = components(base).len() as int;
    let rest = strip_prefix_of(path, base)->0;
    spans_are_inside(path);
    if skipped == parts.len() {
        assert(components(rest) =~= Seq::empty());
        assert(components(path) =~= components(base) + components(rest));
    } else {
        let from = parts[skipped].0;
        let to = parts.last().1;
        let start: int = if is_absolute(path) { 1 } else { 0 };
        let tail = spans_from(path, start);
        if tail.len() == 0 {
            assert(parts =~= seq![(0int, 1int)]);
            assert(spans_from(rest, 1) =~= Seq::empty());
            assert(spans(rest) =~= parts);
        } else {
            last_span_ends_at_boundary(path, start);
            assert(parts.last() == tail.last());
            if skipped < start {
                spans_from_in_part(path, 0, to, 1);
                assert(is_absolute(rest));
                assert(shifted(spans_from(rest, 1), 0) =~= spans_from(rest, 1));
                assert(spans(rest) =~= parts);
            } else {
                spans_from_a_span(path, start, skipped - start);
                assert(parts[skipped] == tail[skipped - start]);
                assert(from < to) by {
                    spans_from_are_ordered(path, start);
                    spans_from_are_inside(path, start);
                }
                spans_from_in_part(path, from, to, 0);
                assert(!is_absolute(rest));
                assert(parts.skip(skipped) =~= tail.skip(skipped - start));
                assert(parts.skip(skipped) =~= shifted(spans(rest), from));
                if from > 0 {
                    segment_end_in_part(path, from, to, 0);
                }
            }
        }
        spans_are_inside(rest);
        let offset: int = if skipped < start { 0 } else { from };
        assert(parts.skip(skipped) =~= shifted(spans(rest), offset));
        assert forall|i: int| skipped <= i < parts.len() implies #[trigger] components(path)[i]
            == components(rest)[i - skipped] by {
            let span = spans(rest)[i - skipped];
            assert(parts.skip(skipped)[i - skipped] == shifted(spans(rest), offset)[i - skipped]);
            assert(path.subrange(offset + span.0, offset + span.1) =~= rest.subrange(
                span.0,
                span.1,
            ));
        }
        assert(components(path) =~= components(base) + components(rest));
    }
}

proof fn separator_starts_no_span(path: Seq<u8>, at: int)
    requires
        0 <= at < path.len(),
        path[at] == SEPARATOR,
    ensures
        spans_from(path, at) == spans_from(path, at + 1),
{
    assert(segment_end(path, at) == at);
}

proof fn trailing_separator_makes_no_difference(path: Seq<u8>)
    requires
        path.len() > 1,
        path.last() == SEPARATOR,
    ensures
        spans(path) == spans(path.drop_last()),
{
    let to = path.len() - 1;
    let start: int = if is_absolute(path) { 1 } else { 0 };
    assert(path.subrange(0, to) =~= path.drop_last());
    spans_from_in_part(path, 0, to, start);
    separator_starts_no_span(path, to);
    assert(spans_from(path, to) =~= Seq::empty());
    assert(shifted(spans_from(path.drop_last(), start), 0) =~= spans_from(
        path.drop_last(),
        start,
    ));
    assert(spans(path) =~= spans(path.drop_last()));
}

proof fn spans_of_joined(base: Seq<u8>, path: Seq<u8>)
    requires
        base.len() > 0,
        base.last() == SEPARATOR,
        !is_absolute(path),
        !is_dot_at(path, 0),
    ensures
        spans(base + path) == spans(base) + shifted(spans(path), base.len() as int),
{
    let whole = base + path;
    let cut = base.len() as int;
    assert(whole.subrange(cut, whole.len() as int) =~= path);
    assert(!is_dot_at(whole, cut)) by {
        segment_end_in_part(whole, cut, whole.len() as int, 0);
    }
    spans_from_in_part(whole, cut, whole.len() as int, 0);
    assert(spans_from(whole, whole.len() as int) =~= Seq::empty());
    assert(spans_from(whole, cut) =~= shifted(spans(path), cut));
    separator_starts_no_span(whole, cut - 1);
    if cut == 1 {
        assert(spans_from(base, 1) =~= Seq::empty());
        assert(spans(whole) =~= spans(base) + shifted(spans(path), cut));
    } else {
        let start: int = if is_absolute(base) { 1 } else { 0 };
        assert(whole.subrange(0, cut - 1) =~= base.drop_last());
        spans_from_in_part(whole, 0, cut - 1, start);
        trailing_separator_makes_no_difference(base);
        assert(shifted(spans_from(base.drop_last(), start), 0) =~= spans_from(
            base.drop_last(),
            start,
        ));
        assert(spans(whole) =~= spans(base) + shifted(spans(path), cut));
    }
}

proof fn components_of_joined(base: Seq<u8>, path: Seq<u8>)
    requires
        base.len() > 0,
        base.last() == SEPARATOR,
        !is_absolute(path),
        !is_dot_at(path, 0),
    ensures
        components(base + path) == components(base) + components(path),
{
    let whole = base + path;
    spans_of_joined(base, path);
    spans_are_inside(base);
    spans_are_inside(path);
    assert forall|i: int| 0 <= i < components(whole).len() implies #[trigger] components(whole)[i]
        == (components(base) + components(path))[i] by {
        if i < spans(base).len() {
            let span = spans(base)[i];
            assert(whole.subrange(span.0, span.1) =~= base.subrange(span.0, span.1));
        } else {
            let span = spans(path)[i - spans(base).len()];
            assert(whole.subrange(base.len() + span.0, base.len() + span.1) =~= path.subrange(
                span.0,
                span.1,
            ));
        }
    }
    assert(components(whole) =~= components(base) + components(path));
}

/// The components of a relative path come behind those of the path from which it is seen. It must
/// not start with `.`, which is a component of its own there and none behind another path.
pub proof fn join_puts_components_behind(base: Seq<u8>, path: Seq<u8>)
    requires
        !is_absolute(path),
        !is_dot_at(path, 0),
    ensures
        components(join(base, path)) == components(base) + components(path),
{
    if base.len() == 0 {
        assert(base + path =~= path);
        assert(components(base) =~= Seq::empty());
        assert(components(join(base, path)) =~= components(base) + components(path));
    } else if base.last() == SEPARATOR {
        components_of_joined(base, path);
    } else {
        let longer = base.push(SEPARATOR);
        components_of_joined(longer, path);
        trailing_separator_makes_no_difference(longer);
        assert(longer.drop_last() =~= base);
        spans_are_inside(base);
        assert forall|i: int| 0 <= i < components(base).len() implies #[trigger] components(
            longer,
        )[i] == components(base)[i] by {
            let span = spans(base)[i];
            assert(longer.subrange(span.0, span.1) =~= base.subrange(span.0, span.1));
        }
        assert(components(longer) =~= components(base));
    }
}

/// A path that is stripped of another and seen from that one again is the same path.
pub proof fn strip_prefix_is_undone_by_join(path: Seq<u8>, base: Seq<u8>)
    requires
        strip_prefix_of(path, base) is Some,
    ensures
        same_path(join(base, strip_prefix_of(path, base)->0), path),
{
    let rest = strip_prefix_of(path, base)->0;
    strip_prefix_leaves_the_rest(path, base);
    if components(base).len() > 0 {
        join_puts_components_behind(base, rest);
    } else {
        if base.len() > 0 {
            segment_end_is_not_before(base, 1);
            assert(spans(base).len() > 0);
        }
        assert(join(base, rest) =~= rest);
        assert(components(base) + components(rest) =~= components(rest));
    }
}

/// The parent of a path has its components but for the last.
pub proof fn parent_lacks_the_last(path: Seq<u8>)
    requires
        parent_of(path) is Some,
    ensures
        components(parent_of(path)->0) == components(path).drop_last(),
{
    let parts = spans(path);
    let parent = parent_of(path)->0;
    if parts.len() == 1 {
        assert(components(parent) =~= components(path).drop_last());
    } else {
        let start: int = if is_absolute(path) { 1 } else { 0 };
        let tail = spans_from(path, start);
        let to = parts[parts.len() - 2].1;
        spans_are_inside(path);
        if parts.len() - 2 < start {
            assert(spans_from(parent, 1) =~= Seq::empty());
            assert(spans(parent) =~= parts.drop_last());
        } else {
            parent_spans(path, start);
            assert(parts[parts.len() - 2] == tail[tail.len() - 2]);
            assert(spans(parent) =~= parts.drop_last());
        }
        assert forall|i: int| 0 <= i < parts.len() - 1 implies #[trigger] components(parent)[i]
            == components(path)[i] by {
            let span = parts[i];
            spans_are_inside(parent);
            assert(spans(parent)[i] == span);
            assert(parent.subrange(span.0, span.1) =~= path.subrange(span.0, span.1));
        }
        assert(components(parent) =~= components(path).drop_last());
    }
}

proof fn span_ends_at_boundary(path: Seq<u8>, at: int, i: int)
    requires
        0 <= at,
        0 <= i < spans_from(path, at).len(),
    ensures
        is_boundary(path, spans_from(path, at)[i].1),
        spans_from(path, spans_from(path, at)[i].1) == spans_from(path, at).skip(i + 1),
    decreases path.len() + 1 - at,
{
    let to = segment_end(path, at);
    let rest = spans_from(path, to + 1);
    segment_end_is_not_before(path, at);
    segment_end_is_boundary(path, at);
    if is_skipped(path, at, to) {
        span_ends_at_boundary(path, to + 1, i);
    } else if i == 0 {
        assert(spans_from(path, at).skip(1) =~= rest);
        if to < path.len() {
            separator_starts_no_span(path, to);
        }
    } else {
        span_ends_at_boundary(path, to + 1, i - 1);
        assert(spans_from(path, at).skip(i + 1) =~= rest.skip(i));
    }
}

proof fn parent_spans(path: Seq<u8>, start: int)
    requires
        0 <= start <= 1,
        spans_from(path, start).len() >= 2,
    ensures
        ({
            let tail = spans_from(path, start);
            spans_from(path.subrange(0, tail[tail.len() - 2].1), start) == tail.drop_last()
        }),
{
    let tail = spans_from(path, start);
    let to = tail[tail.len() - 2].1;
    span_ends_at_boundary(path, start, tail.len() - 2);
    spans_from_are_inside(path, start);
    spans_from_in_part(path, 0, to, start);
    let inside = spans_from(path.subrange(0, to), start);
    assert(shifted(inside, 0) =~= inside);
    assert(tail.skip(tail.len() - 1).len() == 1);
    assert(tail =~= inside + tail.skip(tail.len() - 1));
    assert(inside =~= tail.drop_last());
}

/// An absolute path is seen as itself from everywhere. A relative one is seen behind the path it is
/// seen from: both are there in full, with nothing but a separator between them, and that only
/// where it is needed.
pub proof fn join_keeps_both(base: Seq<u8>, path: Seq<u8>)
    ensures
        path.len() > 0 && path[0] == 0x2f ==> join(base, path) == path,
        path.len() == 0 || path[0] != 0x2f ==> {
            let joined = join(base, path);
            let between = joined.len() - base.len() - path.len();
            &&& 0 <= between <= 1
            &&& joined.take(base.len() as int) == base
            &&& joined.skip(joined.len() - path.len()) == path
            &&& between == 1 <==> base.len() > 0 && base.last() != 0x2f
            &&& between == 1 ==> joined[base.len() as int] == 0x2f
        },
{
    if path.len() == 0 || path[0] != 0x2f {
        let joined = join(base, path);
        assert(joined.take(base.len() as int) =~= base);
        assert(joined.skip(joined.len() - path.len()) =~= path);
    }
}

/// A directory comes before everything that is beneath it.
pub proof fn directory_comes_first(above: Seq<u8>, beneath: Seq<u8>)
    requires
        components(above).is_prefix_of(components(beneath)),
        components(above) != components(beneath),
    ensures
        path_less(above, beneath),
        !path_less(beneath, above),
{
    let front = components(above);
    let all = components(beneath);
    let behind = all.skip(front.len() as int);
    component_lt_is_strict_total();
    if behind.len() == 0 {
        assert(all =~= front);
    }
    let next = behind[0];
    let rest = behind.drop_first();
    assert(all =~= front + seq![next] + rest) by {
        assert(all.take(front.len() as int) == front);
    }
    let other = next.push(0);
    assert(other.len() != next.len());
    crate::order::first_difference_decides(front, other, next, rest, rest, component_lt());
}

} // verus!
