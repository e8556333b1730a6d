//! Classification expressions.
//!
//! A classification is a comma-separated list of components, one per
//! dimension. A pattern has the same shape, where each component is either
//! `*`, matching anything in that dimension, or a `|`-separated list of
//! alternatives.

use vstd::prelude::*;
use vstd::string::StrSliceExecFns;
use vstd::string::StringExecFns;

use crate::fqid::{find_char, first_index_of, lemma_first_index_props};
use crate::strutil::{lemma_views_push, seq_views, str_eq};

verus! {

broadcast use vstd::seq_lib::group_seq_lib_default;

/// Whether a character counts as trimmable whitespace.
pub open spec fn spec_is_space(c: char) -> bool {
    c == ' ' || c == '\t' || c == '\r' || c == '\n'
}

/// The string without leading whitespace.
pub open spec fn spec_trim_start(s: Seq<char>) -> Seq<char>
    decreases s.len(),
{
    if s.len() > 0 && spec_is_space(s[0]) {
        spec_trim_start(s.drop_first())
    } else {
        s
    }
}

/// The string without trailing whitespace.
pub open spec fn spec_trim_end(s: Seq<char>) -> Seq<char>
    decreases s.len(),
{
    if s.len() > 0 && spec_is_space(s.last()) {
        spec_trim_end(s.drop_last())
    } else {
        s
    }
}

/// The string without leading or trailing whitespace.
pub open spec fn spec_trim(s: Seq<char>) -> Seq<char> {
    spec_trim_end(spec_trim_start(s))
}

/// The pieces of a string split on a separator character, in order; a
/// string without the separator is one piece.
pub open spec fn spec_split(s: Seq<char>, c: char) -> Seq<Seq<char>>
    decreases s.len(),
{
    let i = first_index_of(s, c);
    if !(0 <= i < s.len()) {
        seq![s]
    } else {
        seq![s.subrange(0, i)] + spec_split(s.subrange(i + 1, s.len() as int), c)
    }
}

/// The components of a classification: its comma-separated pieces, each
/// trimmed.
pub open spec fn spec_parse_classification(s: Seq<char>) -> Seq<Seq<char>> {
    spec_split(s, ',').map_values(|p: Seq<char>| spec_trim(p))
}

/// Whether one classification component matches one pattern component: the
/// wildcard matches anything, otherwise some trimmed `|`-alternative must
/// equal the component.
pub open spec fn spec_part_matches(class: Seq<char>, pat: Seq<char>) -> bool {
    pat == "*"@ || spec_split(pat, '|').map_values(|p: Seq<char>| spec_trim(p)).contains(class)
}

/// Whether a classification matches a pattern: the dimension counts agree
/// and every component matches its pattern component.
pub open spec fn spec_match_classification(class: Seq<char>, pattern: Seq<char>) -> bool {
    let cp = spec_parse_classification(class);
    let pp = spec_parse_classification(pattern);
    cp.len() == pp.len() && forall|i: int|
        0 <= i < cp.len() ==> spec_part_matches(#[trigger] cp[i], pp[i])
}

/// Dropping leading whitespace up to the first non-space position.
proof fn lemma_trim_start_at(s: Seq<char>, a: int)
    requires
        0 <= a <= s.len(),
        forall|j: int| 0 <= j < a ==> spec_is_space(s[j]),
        a < s.len() ==> !spec_is_space(s[a]),
    ensures
        spec_trim_start(s) == s.subrange(a, s.len() as int),
    decreases a,
{
    if a == 0 {
        assert(s.subrange(0, s.len() as int) =~= s);
    } else {
        assert(spec_is_space(s[0]));
        let rest = s.drop_first();
        assert forall|j: int| 0 <= j < a - 1 implies spec_is_space(rest[j]) by {
            assert(rest[j] == s[j + 1]);
        }
        if a - 1 < rest.len() {
            assert(rest[a - 1] == s[a]);
        }
        lemma_trim_start_at(rest, a - 1);
        assert(rest.subrange(a - 1, rest.len() as int) =~= s.subrange(a, s.len() as int));
    }
}

/// Dropping trailing whitespace down to the last non-space position.
proof fn lemma_trim_end_at(s: Seq<char>, b: int)
    requires
        0 <= b <= s.len(),
        forall|j: int| b <= j < s.len() ==> spec_is_space(s[j]),
        b > 0 ==> !spec_is_space(s[b - 1]),
    ensures
        spec_trim_end(s) == s.subrange(0, b),
    decreases s.len() - b,
{
    if b == s.len() {
        if s.len() > 0 && spec_is_space(s.last()) {
            assert(!spec_is_space(s[b - 1]));
            assert(false);
        }
        assert(s.subrange(0, b) =~= s);
    } else {
        assert(spec_is_space(s.last()));
        let rest = s.drop_last();
        assert forall|j: int| b <= j < rest.len() implies spec_is_space(rest[j]) by {
            assert(rest[j] == s[j]);
        }
        lemma_trim_end_at(rest, b);
        assert(rest.subrange(0, b) =~= s.subrange(0, b));
    }
}

/// Trim leading and trailing whitespace.
pub fn trim_str(s: &str) -> (r: String)
    ensures
        r@ == spec_trim(s@),
{
    let n = s.unicode_len();
    let mut a: usize = 0;
    while a < n && is_space_char(s.get_char(a))
        invariant
            0 <= a <= n,
            n == s@.len(),
            forall|j: int| 0 <= j < a ==> spec_is_space(s@[j]),
        decreases n - a,
    {
        a = a + 1;
    }
    proof {
        lemma_trim_start_at(s@, a as int);
    }
    let ghost mid = s@.subrange(a as int, s@.len() as int);
    let mut b: usize = n;
    while b > a && is_space_char(s.get_char(b - 1))
        invariant
            a <= b <= n,
            n == s@.len(),
            forall|j: int| b <= j < n ==> spec_is_space(s@[j]),
        decreases b,
    {
        b = b - 1;
    }
    proof {
        assert forall|j: int| b - a <= j < mid.len() implies spec_is_space(mid[j]) by {
            assert(mid[j] == s@[j + a]);
        }
        if b > a {
            assert(mid[b - a - 1] == s@[b - 1]);
        }
        lemma_trim_end_at(mid, b - a);
    }
    let piece = s.substring_char(a, b);
    proof {
        assert(mid.subrange(0, b - a) =~= s@.subrange(a as int, b as int));
    }
    String::from_str(piece)
}

/// Whether a character counts as trimmable whitespace.
fn is_space_char(c: char) -> (r: bool)
    ensures
        r == spec_is_space(c),
{
    c == ' ' || c == '\t' || c == '\r' || c == '\n'
}

/// Split a string on a separator character.
pub fn split_str(s: &str, c: char) -> (r: Vec<String>)
    ensures
        seq_views(r@) == spec_split(s@, c),
    decreases s@.len(),
{
    proof {
        lemma_first_index_props(s@, c);
    }
    match find_char(s, c) {
        None => {
            let mut r: Vec<String> = Vec::new();
            r.push(String::from_str(s));
            proof {
                assert(seq_views(r@) =~= seq![s@]);
            }
            r
        },
        Some(i) => {
            let n = s.unicode_len();
            let head = s.substring_char(0, i);
            let rest = s.substring_char(i + 1, n);
            let mut r: Vec<String> = Vec::new();
            r.push(String::from_str(head));
            let mut tail = split_str(rest, c);
            let ghost tail_views = seq_views(tail@);
            let ghost head_views = seq_views(r@);
            r.append(&mut tail);
            proof {
                assert(head_views =~= seq![s@.subrange(0, i as int)]);
                assert(seq_views(r@) =~= head_views + tail_views);
                assert(seq_views(r@) =~= spec_split(s@, c));
            }
            r
        },
    }
}

/// Parse a classification string into its trimmed components.
pub fn parse_classification(classification: &str) -> (r: Vec<String>)
    ensures
        seq_views(r@) == spec_parse_classification(classification@),
{
    let pieces = split_str(classification, ',');
    let n = pieces.len();
    let mut out: Vec<String> = Vec::new();
    let mut i: usize = 0;
    while i < n
        invariant
            0 <= i <= n,
            n == pieces@.len(),
            seq_views(pieces@) == spec_split(classification@, ','),
            out@.len() == i,
            forall|j: int| 0 <= j < i ==> #[trigger] seq_views(out@)[j] == spec_trim(
                seq_views(pieces@)[j],
            ),
        decreases n - i,
    {
        let t = trim_str(pieces[i].as_str());
        let ghost pre = out@;
        out.push(t);
        proof {
            lemma_views_push(pre, out@.last());
        }
        i = i + 1;
    }
    proof {
        assert(seq_views(out@) =~= spec_parse_classification(classification@));
    }
    out
}

/// Whether one classification component matches one pattern component.
fn part_matches(class: &str, pat: &str) -> (r: bool)
    ensures
        r == spec_part_matches(class@, pat@),
{
    if str_eq(pat, "*") {
        return true;
    }
    let alts = split_str(pat, '|');
    let n = alts.len();
    let mut i: usize = 0;
    while i < n
        invariant
            0 <= i <= n,
            n == alts@.len(),
            seq_views(alts@) == spec_split(pat@, '|'),
            forall|j: int| 0 <= j < i ==> spec_trim(#[trigger] seq_views(alts@)[j]) != class@,
        decreases n - i,
    {
        let t = trim_str(alts[i].as_str());
        if str_eq(t.as_str(), class) {
            proof {
                let mv = spec_split(pat@, '|').map_values(|p: Seq<char>| spec_trim(p));
                assert(mv[i as int] == class@);
                assert(mv.contains(class@));
            }
            return true;
        }
        i = i + 1;
    }
    proof {
        let mv = spec_split(pat@, '|').map_values(|p: Seq<char>| spec_trim(p));
        if mv.contains(class@) {
            let j = choose|j: int| 0 <= j < mv.len() && mv[j] == class@;
            assert(spec_trim(seq_views(alts@)[j]) == class@);
        }
    }
    false
}

/// Match a classification against a pattern expression: the dimension
/// counts must agree, and in each dimension the component must match the
/// wildcard or one of the pattern's alternatives.
pub fn match_classification(classification: &str, pattern: &str) -> (r: bool)
    ensures
        r == spec_match_classification(classification@, pattern@),
{
    let class_parts = parse_classification(classification);
    let pattern_parts = parse_classification(pattern);
    if class_parts.len() != pattern_parts.len() {
        return false;
    }
    let n = class_parts.len();
    let mut i: usize = 0;
    while i < n
        invariant
            0 <= i <= n,
            n == class_parts@.len(),
            n == pattern_parts@.len(),
            seq_views(class_parts@) == spec_parse_classification(classification@),
            seq_views(pattern_parts@) == spec_parse_classification(pattern@),
            forall|j: int| 0 <= j < i ==> spec_part_matches(
                #[trigger] seq_views(class_parts@)[j],
                seq_views(pattern_parts@)[j],
            ),
        decreases n - i,
    {
        if !part_matches(class_parts[i].as_str(), pattern_parts[i].as_str()) {
            proof {
                assert(!spec_part_matches(
                    seq_views(class_parts@)[i as int],
                    seq_views(pattern_parts@)[i as int],
                ));
            }
            return false;
        }
        i = i + 1;
    }
    true
}

} // verus!
