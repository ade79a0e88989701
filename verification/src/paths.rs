//! Filesystem paths held as text, joined the way Unix paths are.
use vstd::prelude::*;

use crate::text::{chars_of, owned, push_char, push_str, str_ends_with_char};

verus! {

/// Whether `path` is absolute: it starts at the root `/`.
pub open spec fn is_absolute(path: Seq<char>) -> bool {
    path.len() > 0 && path[0] == '/'
}

/// `rel` joined onto `base`: an absolute `rel` replaces `base`; otherwise `rel` follows
/// `base`, with a `/` between them unless `base` is empty or already ends with one.
pub open spec fn join_path(base: Seq<char>, rel: Seq<char>) -> Seq<char> {
    if is_absolute(rel) {
        rel
    } else if base.len() == 0 || base.last() == '/' {
        base + rel
    } else {
        base.push('/') + rel
    }
}

/// Joins `rel` onto `base`.
pub fn join(base: &str, rel: &str) -> (res: String)
    ensures
        res@ == join_path(base@, rel@),
{
    let chars = chars_of(rel);
    if chars.len() > 0 && chars[0] == '/' {
        return owned(rel);
    }
    let mut res = owned(base);
    if !base.is_empty() && !str_ends_with_char(base, '/') {
        push_char(&mut res, '/');
    }
    push_str(&mut res, rel);
    res
}

} // verus!
