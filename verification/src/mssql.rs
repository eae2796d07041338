//! What the SQL Server path decides on its own: T-SQL's statement
//! classification and the `HOST\INSTANCE` form of a host.

use vstd::prelude::*;
use crate::db::lowered_head;
use crate::text::{chars_of, contains, lower, starts_with, string_of, trim_start, vec_contains,
    vec_starts_with};

verus! {

/// Whether a T-SQL statement hands back rows: the keywords shared with the
/// other engines plus the ones only SQL Server has, and an OUTPUT clause in
/// place of RETURNING.
pub open spec fn is_fetch_spec(sql: Seq<char>) -> bool {
    let head = lower(trim_start(sql));
    ||| starts_with(head, "select"@)
    ||| starts_with(head, "with"@)
    ||| starts_with(head, "exec"@)
    ||| starts_with(head, "execute"@)
    ||| starts_with(head, "declare"@)
    ||| starts_with(head, "print"@)
    ||| contains(head, " output "@)
}

fn starts_with_lit(t: &[char], lit: &str) -> (r: bool)
    ensures
        r == starts_with(t@, lit@),
{
    let p = chars_of(lit);
    vec_starts_with(t, p.as_slice())
}

/// Whether a T-SQL statement is fetched rather than executed.
pub fn is_fetch(sql: &str) -> (r: bool)
    ensures
        r == is_fetch_spec(sql@),
{
    let head = lowered_head(sql);
    let h = head.as_slice();
    let out = chars_of(" output ");
    starts_with_lit(h, "select") || starts_with_lit(h, "with") || starts_with_lit(h, "exec")
        || starts_with_lit(h, "execute") || starts_with_lit(h, "declare") || starts_with_lit(
        h,
        "print",
    ) || vec_contains(h, out.as_slice())
}

/// The position of the first `c` in `s`.
pub open spec fn first_index(s: Seq<char>, c: char) -> Option<int>
    decreases s.len(),
{
    if s.len() == 0 {
        None
    } else {
        match first_index(s.drop_last(), c) {
            Some(i) => Some(i),
            None => if s.last() == c {
                Some(s.len() - 1)
            } else {
                None
            },
        }
    }
}

/// `HOST\INSTANCE` split at the first backslash; a host without one names
/// no instance.
pub open spec fn split_instance_spec(host: Seq<char>) -> (Seq<char>, Option<Seq<char>>) {
    match first_index(host, '\\') {
        Some(i) => (host.take(i), Some(host.skip(i + 1))),
        None => (host, None),
    }
}

proof fn lemma_first_index_prefix(s: Seq<char>, c: char, k: int)
    requires
        0 <= k <= s.len(),
        first_index(s.take(k), c) is Some,
    ensures
        first_index(s, c) == first_index(s.take(k), c),
    decreases s.len() - k,
{
    if k < s.len() {
        assert(s.take(k + 1).drop_last() =~= s.take(k));
        lemma_first_index_prefix(s, c, k + 1);
    } else {
        assert(s.take(k) =~= s);
    }
}

/// A named instance listens on its own port, which the SQL Browser
/// resolves from the name: split `HOST\INSTANCE` into its two parts.
pub fn split_instance(host: &str) -> (r: (String, Option<String>))
    ensures
        r.0@ == split_instance_spec(host@).0,
        match r.1 {
            Some(i) => split_instance_spec(host@).1 == Some(i@),
            None => split_instance_spec(host@).1 is None,
        },
{
    let s = chars_of(host);
    let n = s.len();
    assert(s@.take(0) =~= Seq::<char>::empty());
    for i in 0..n
        invariant
            n == s@.len(),
            s@ == host@,
            first_index(s@.take(i as int), '\\') is None,
    {
        assert(s@.take(i + 1).drop_last() =~= s@.take(i as int));
        if s[i] == '\\' {
            proof {
                lemma_first_index_prefix(s@, '\\', i + 1);
            }
            let mut h: Vec<char> = Vec::new();
            for j in 0..i
                invariant
                    i < s@.len(),
                    h@ == s@.take(j as int),
            {
                h.push(s[j]);
                assert(s@.take(j + 1) =~= s@.take(j as int).push(s@[j as int]));
            }
            let mut inst: Vec<char> = Vec::new();
            for j in i + 1..n
                invariant
                    i < n,
                    n == s@.len(),
                    inst@ == s@.subrange(i + 1, j as int),
            {
                inst.push(s[j]);
                assert(s@.subrange(i + 1, j + 1) =~= s@.subrange(i + 1, j as int).push(
                    s@[j as int],
                ));
            }
            assert(inst@ =~= s@.skip(i + 1));
            return (string_of(h.as_slice()), Some(string_of(inst.as_slice())));
        }
    }
    assert(s@.take(n as int) =~= s@);
    (String::from_str(host), None)
}

} // verus!
