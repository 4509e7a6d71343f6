use vstd::prelude::*;
use vstd::string::StringExecFns;
use crate::text::chars_of;

verus! {

/// `name` seen from `base`, with `/` between the components: a name that
/// starts at the root stands for itself; otherwise it follows the base,
/// after a separator where the base does not end in one already.
pub open spec fn joined(base: Seq<char>, name: Seq<char>) -> Seq<char> {
    if name.len() > 0 && name[0] == '/' {
        name
    } else if base.len() > 0 && base.last() != '/' {
        base + seq!['/'] + name
    } else {
        base + name
    }
}

/// Joins two paths.
pub fn join(base: &str, name: &str) -> (r: String)
    ensures
        r@ == joined(base@, name@),
{
    let head = chars_of(name);
    if head.len() > 0 && head[0] == '/' {
        return String::from_str(name);
    }
    let stem = chars_of(base);
    let mut path = String::from_str(base);
    if stem.len() > 0 && stem[stem.len() - 1] != '/' {
        proof {
            reveal_strlit("/");
            assert("/"@ =~= seq!['/']);
        }
        path.append("/");
    }
    path.append(name);
    path
}

} // verus!
