//! Fully-qualified step identifiers.
//!
//! An FQID is a dot-separated path of step ids from the implicit root. The
//! root's own FQID is `ROOT`, and it is elided from its children: a child of
//! the root named `FEAT` has FQID `FEAT`, while that step's child `REQ` has
//! FQID `FEAT.REQ`. The parent FQID is found by stripping the last segment.

use vstd::prelude::*;
use vstd::string::StrSliceExecFns;
use vstd::string::StringExecFns;

use crate::strutil::{opt_view, str_eq};

verus! {

/// FQID of the implicit root step.
pub const ROOT_FQID: &'static str = "ROOT";

/// The position of the last occurrence of `c` in `s`, or `-1`.
pub open spec fn last_index_of(s: Seq<char>, c: char) -> int
    decreases s.len(),
{
    if s.len() == 0 {
        -1
    } else if s.last() == c {
        s.len() - 1
    } else {
        last_index_of(s.drop_last(), c)
    }
}

/// A position that holds `c`, with nothing but other characters after it,
/// is the last occurrence.
pub proof fn lemma_last_index_at(s: Seq<char>, c: char, i: int)
    requires
        0 <= i < s.len(),
        s[i] == c,
        forall|j: int| i < j < s.len() ==> s[j] != c,
    ensures
        last_index_of(s, c) == i,
    decreases s.len(),
{
    if i == s.len() - 1 {
    } else {
        assert(s.last() != c);
        assert(s.drop_last()[i] == c);
        lemma_last_index_at(s.drop_last(), c, i);
    }
}

/// A string without `c` anywhere has no last occurrence.
pub proof fn lemma_last_index_none(s: Seq<char>, c: char)
    requires
        forall|j: int| 0 <= j < s.len() ==> s[j] != c,
    ensures
        last_index_of(s, c) == -1,
    decreases s.len(),
{
    if s.len() > 0 {
        lemma_last_index_none(s.drop_last(), c);
    }
}

/// The last occurrence really is an occurrence, and nothing follows it.
pub proof fn lemma_last_index_props(s: Seq<char>, c: char)
    ensures
        last_index_of(s, c) >= 0 ==> last_index_of(s, c) < s.len() && s[last_index_of(s, c)] == c,
        last_index_of(s, c) < 0 ==> forall|j: int| 0 <= j < s.len() ==> s[j] != c,
    decreases s.len(),
{
    if s.len() > 0 && s.last() != c {
        lemma_last_index_props(s.drop_last(), c);
        if last_index_of(s, c) < 0 {
            assert forall|j: int| 0 <= j < s.len() implies s[j] != c by {
                if j < s.len() - 1 {
                    assert(s.drop_last()[j] != c);
                }
            }
        }
    }
}

/// Find the last occurrence of a character.
pub fn rfind_char(s: &str, c: char) -> (r: Option<usize>)
    ensures
        match r {
            Some(i) => i == last_index_of(s@, c),
            None => last_index_of(s@, c) == -1,
        },
{
    let n = s.unicode_len();
    let mut i = n;
    while i > 0
        invariant
            0 <= i <= n,
            n == s@.len(),
            forall|j: int| i <= j < n ==> s@[j] != c,
        decreases i,
    {
        i = i - 1;
        if s.get_char(i) == c {
            proof {
                lemma_last_index_at(s@, c, i as int);
            }
            return Some(i);
        }
    }
    proof {
        lemma_last_index_none(s@, c);
    }
    None
}

/// The position of the first occurrence of `c` in `s`, or `-1`.
pub open spec fn first_index_of(s: Seq<char>, c: char) -> int
    decreases s.len(),
{
    if s.len() == 0 {
        -1
    } else if s[0] == c {
        0
    } else {
        let r = first_index_of(s.drop_first(), c);
        if r < 0 {
            -1
        } else {
            r + 1
        }
    }
}

/// A position that holds `c`, with nothing but other characters before it,
/// is the first occurrence.
pub proof fn lemma_first_index_at(s: Seq<char>, c: char, i: int)
    requires
        0 <= i < s.len(),
        s[i] == c,
        forall|j: int| 0 <= j < i ==> s[j] != c,
    ensures
        first_index_of(s, c) == i,
    decreases s.len(),
{
    if i > 0 {
        let rest = s.drop_first();
        assert(rest[i - 1] == s[i]);
        assert forall|j: int| 0 <= j < i - 1 implies rest[j] != c by {
            assert(rest[j] == s[j + 1]);
        }
        lemma_first_index_at(rest, c, i - 1);
    }
}

/// The first occurrence is an occurrence, and nothing precedes it; a
/// negative answer means the character is absent.
pub proof fn lemma_first_index_props(s: Seq<char>, c: char)
    ensures
        first_index_of(s, c) >= 0 ==> 0 <= first_index_of(s, c) < s.len() && s[first_index_of(
            s,
            c,
        )] == c && forall|j: int| 0 <= j < first_index_of(s, c) ==> s[j] != c,
        first_index_of(s, c) < 0 ==> forall|j: int| 0 <= j < s.len() ==> s[j] != c,
    decreases s.len(),
{
    if s.len() > 0 && s[0] != c {
        lemma_first_index_props(s.drop_first(), c);
        let rest = s.drop_first();
        if first_index_of(s, c) < 0 {
            assert forall|j: int| 0 <= j < s.len() implies s[j] != c by {
                if j > 0 {
                    assert(rest[j - 1] == s[j]);
                }
            }
        } else {
            let i = first_index_of(s, c);
            assert(rest[i - 1] == s[i]);
            assert forall|j: int| 0 <= j < i implies s[j] != c by {
                if j > 0 {
                    assert(rest[j - 1] == s[j]);
                }
            }
        }
    }
}

/// Find the first occurrence of a character.
pub fn find_char(s: &str, c: char) -> (r: Option<usize>)
    ensures
        match r {
            Some(i) => i == first_index_of(s@, c),
            None => first_index_of(s@, c) == -1,
        },
{
    let n = s.unicode_len();
    let mut i: usize = 0;
    while i < n
        invariant
            0 <= i <= n,
            n == s@.len(),
            forall|j: int| 0 <= j < i ==> s@[j] != c,
        decreases n - i,
    {
        if s.get_char(i) == c {
            proof {
                lemma_first_index_at(s@, c, i as int);
            }
            return Some(i);
        }
        i = i + 1;
    }
    proof {
        lemma_first_index_props(s@, c);
        if first_index_of(s@, c) >= 0 {
            assert(s@[first_index_of(s@, c)] == c);
        }
    }
    None
}

/// The parent FQID: nothing for the root itself, the root for a single
/// segment, otherwise everything before the last dot.
pub open spec fn spec_parent_fqid(f: Seq<char>) -> Option<Seq<char>> {
    if f == ROOT_FQID@ {
        None
    } else if last_index_of(f, '.') < 0 {
        Some(ROOT_FQID@)
    } else {
        Some(f.subrange(0, last_index_of(f, '.')))
    }
}

/// The last segment of an FQID: the step's own id.
pub open spec fn spec_leaf_id(f: Seq<char>) -> Seq<char> {
    if last_index_of(f, '.') < 0 {
        f
    } else {
        f.subrange(last_index_of(f, '.') + 1, f.len() as int)
    }
}

/// The FQID of a child: the child's id under the root, otherwise the parent
/// FQID, a dot and the child's id.
pub open spec fn spec_child_fqid(parent: Seq<char>, id: Seq<char>) -> Seq<char> {
    if parent == ROOT_FQID@ {
        id
    } else {
        parent + "."@ + id
    }
}

/// Whether the FQID names the implicit root.
pub fn is_root_fqid(fqid: &str) -> (r: bool)
    ensures
        r == (fqid@ == ROOT_FQID@),
{
    str_eq(fqid, ROOT_FQID)
}

/// Compute the parent FQID of an FQID.
pub fn parent_fqid(fqid: &str) -> (r: Option<String>)
    ensures
        opt_view(r) == spec_parent_fqid(fqid@),
{
    if str_eq(fqid, ROOT_FQID) {
        return None;
    }
    match rfind_char(fqid, '.') {
        None => Some(String::from_str(ROOT_FQID)),
        Some(i) => {
            proof {
                lemma_last_index_props(fqid@, '.');
            }
            let prefix = fqid.substring_char(0, i);
            Some(String::from_str(prefix))
        },
    }
}

/// Compute the last segment of an FQID.
pub fn leaf_id(fqid: &str) -> (r: String)
    ensures
        r@ == spec_leaf_id(fqid@),
{
    match rfind_char(fqid, '.') {
        None => String::from_str(fqid),
        Some(i) => {
            proof {
                lemma_last_index_props(fqid@, '.');
            }
            let n = fqid.unicode_len();
            let suffix = fqid.substring_char(i + 1, n);
            String::from_str(suffix)
        },
    }
}

/// Compute the FQID of a child step.
pub fn child_fqid(parent: &str, id: &str) -> (r: String)
    ensures
        r@ == spec_child_fqid(parent@, id@),
{
    if str_eq(parent, ROOT_FQID) {
        String::from_str(id)
    } else {
        let mut s = String::from_str(parent);
        s.append(".");
        s.append(id);
        s
    }
}

} // verus!
