//! Copies of lists.
use vstd::prelude::*;

use crate::byte_string::ByteString;
use crate::unix_path::UnixPath;

verus! {

/// The texts once more.
pub fn copy_texts(texts: &Vec<String>) -> (copy: Vec<String>)
    ensures
        copy.deep_view() == texts.deep_view(),
{
    let copy = texts.clone();
    assert(copy.deep_view() =~= texts.deep_view());
    copy
}

/// The paths once more.
pub fn copy_paths(paths: &Vec<UnixPath>) -> (copy: Vec<UnixPath>)
    ensures
        copy.deep_view() == paths.deep_view(),
{
    let copy = paths.clone();
    assert(copy.deep_view() =~= paths.deep_view());
    copy
}

/// The strings once more.
pub fn copy_strings(strings: &Vec<ByteString>) -> (copy: Vec<ByteString>)
    ensures
        copy.deep_view() == strings.deep_view(),
{
    let copy = strings.clone();
    assert(copy.deep_view() =~= strings.deep_view());
    copy
}

/// The ports once more.
pub fn copy_ports(ports: &Vec<u16>) -> (copy: Vec<u16>)
    ensures
        copy@ == ports@,
{
    let copy = ports.clone();
    assert(copy@ =~= ports@);
    copy
}

/// The path once more, if there is one.
pub fn copy_path(path: &Option<UnixPath>) -> (copy: Option<UnixPath>)
    ensures
        copy.deep_view() == path.deep_view(),
{
    match path {
        Some(path) => Some(path.clone()),
        None => None,
    }
}

/// The variables once more.
pub fn copy_vars(vars: &Vec<(String, ByteString)>) -> (copy: Vec<(String, ByteString)>)
    ensures
        copy.deep_view() == vars.deep_view(),
{
    let mut copy: Vec<(String, ByteString)> = Vec::new();
    let mut i: usize = 0;
    while i < vars.len()
        invariant
            i <= vars.len(),
            copy.deep_view() == vars.deep_view().take(i as int),
        decreases vars.len() - i,
    {
        let var = (vars[i].0.clone(), vars[i].1.clone());
        let ghost before = copy.deep_view();
        copy.push(var);
        assert(copy.deep_view() =~= before.push(var.deep_view()));
        assert(copy.deep_view() =~= vars.deep_view().take(i + 1));
        i += 1;
    }
    assert(vars.deep_view().take(i as int) =~= vars.deep_view());
    copy
}

} // verus!
