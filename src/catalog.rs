//! Finding a puzzle of the catalog by its short name.

use vstd::prelude::*;
use vstd::string::StringSliceAdditionalSpecFns;

verus! {

/// The short name that a request names: the request without its trailing `/`;
/// a request without one names nothing.
pub open spec fn requested_name(request: Seq<u8>) -> Option<Seq<u8>> {
    if request.len() > 0 && request.last() == 47u8 {
        Some(request.drop_last())
    } else {
        None
    }
}

/// The first index whose name is `name`, if there is one.
pub open spec fn first_named(names: Seq<Seq<u8>>, name: Seq<u8>) -> Option<int> {
    if exists|i: int| 0 <= i < names.len() && names[i] == name {
        Some(
            choose|i: int|
                0 <= i < names.len() && names[i] == name && forall|j: int|
                    0 <= j < i ==> names[j] != name,
        )
    } else {
        None
    }
}

/// The bytes of each name.
pub open spec fn name_bytes(names: Seq<String>) -> Seq<Seq<u8>> {
    names.map_values(|s: String| vstd::utf8::encode_utf8(s@))
}

fn bytes_equal(a: &[u8], b: &[u8], len: usize) -> (r: bool)
    requires
        len <= b@.len(),
    ensures
        r == (a@ == b@.take(len as int)),
{
    if a.len() != len {
        return false;
    }
    for i in 0..len
        invariant
            a@.len() == len,
            len <= b@.len(),
            forall|j: int| 0 <= j < i ==> a@[j] == b@[j],
    {
        if a[i] != b[i] {
            assert(a@[i as int] != b@.take(len as int)[i as int]);
            return false;
        }
    }
    assert(a@ =~= b@.take(len as int));
    true
}

/// Index of the puzzle that `request` names among `names` (the request's short name
/// followed by `/`): the first puzzle of that name, or else the first puzzle of the
/// catalog, index 0.
pub fn catalog_index(names: &Vec<String>, request: &str) -> (r: usize)
    ensures
        r == match requested_name(request.spec_bytes()) {
            Some(name) => match first_named(name_bytes(names@), name) {
                Some(i) => i as usize,
                None => 0,
            },
            None => 0,
        },
{
    let req = request.as_bytes();
    let len = req.len();
    if len == 0 || req[len - 1] != 47u8 {
        return 0;
    }
    let ghost name = req@.drop_last();
    assert(req@.take(len - 1) =~= name);
    let n = names.len();
    for i in 0..n
        invariant
            n == names@.len(),
            len == req@.len(),
            len > 0,
            req@.last() == 47u8,
            req@ == request.spec_bytes(),
            name == req@.drop_last(),
            name =~= req@.take(len - 1),
            forall|j: int| 0 <= j < i ==> name_bytes(names@)[j] != name,
    {
        let candidate = names[i].as_str().as_bytes();
        if bytes_equal(candidate, req, len - 1) {
            let ghost ns = name_bytes(names@);
            assert(ns[i as int] == name);
            assert(first_named(ns, name) == Some(i as int)) by {
                assert(0 <= i < ns.len() && ns[i as int] == name && forall|j: int|
                    0 <= j < i ==> ns[j] != name);
                let c = choose|k: int|
                    0 <= k < ns.len() && ns[k] == name && forall|j: int| 0 <= j < k ==> ns[j] != name;
                if c < i {
                    assert(ns[c] != name);
                } else if c > i {
                    assert(ns[i as int] != name);
                }
            }
            return i;
        }
    }
    assert(first_named(name_bytes(names@), name) is None);
    0
}

} // verus!
