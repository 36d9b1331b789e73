//! Reading the process start time (field 22 of `/proc/self/stat`), which a
//! polkit `unix-process` subject carries.
use crate::text::{chars_of, is_ws, is_ws_char, occurs_at, parse_unsigned, parse_unsigned_chars};
use vstd::prelude::*;

verus! {

/// Length of the run of non-whitespace characters that starts `s`.
pub open spec fn run_len(s: Seq<char>) -> nat
    decreases s.len(),
{
    if s.len() == 0 || is_ws(s[0]) {
        0
    } else {
        1 + run_len(s.skip(1))
    }
}

pub proof fn lemma_run_len_bound(s: Seq<char>)
    ensures
        run_len(s) <= s.len(),
        s.len() > 0 && !is_ws(s[0]) ==> run_len(s) >= 1,
    decreases s.len(),
{
    if s.len() > 0 && !is_ws(s[0]) {
        lemma_run_len_bound(s.skip(1));
    }
}

/// Whitespace-separated fields (`str::split_whitespace`).
pub open spec fn fields(s: Seq<char>) -> Seq<Seq<char>>
    decreases s.len(),
{
    if s.len() == 0 {
        seq![]
    } else if is_ws(s[0]) {
        fields(s.skip(1))
    } else {
        proof {
            lemma_run_len_bound(s);
        }
        seq![s.take(run_len(s) as int)] + fields(s.skip(run_len(s) as int))
    }
}

/// The separator after the command name: `") "`.
pub open spec fn paren_space() -> Seq<char> {
    seq![')', ' ']
}

/// `i` is the start of the last `") "` in `s`.
pub open spec fn is_last_paren_space(s: Seq<char>, i: int) -> bool {
    &&& occurs_at(s, paren_space(), i)
    &&& forall|j: int| j > i ==> !#[trigger] occurs_at(s, paren_space(), j)
}

/// Start of the last `") "` in `s` (`str::rsplit_once(") ")`).
pub open spec fn last_paren_space(s: Seq<char>) -> Option<int> {
    if exists|i: int| #[trigger] is_last_paren_space(s, i) {
        Some(choose|i: int| #[trigger] is_last_paren_space(s, i))
    } else {
        None
    }
}

/// The start time in clock ticks: the 20th field after the command name,
/// which ends at the last `") "`.
pub open spec fn start_time_ticks(stat: Seq<char>) -> Option<nat> {
    match last_paren_space(stat) {
        None => None,
        Some(i) => {
            let f = fields(stat.skip(i + 2));
            if f.len() > 19 {
                parse_unsigned(f[19], u64::MAX as nat)
            } else {
                None
            }
        },
    }
}

proof fn lemma_fields_run(s: Seq<char>, k: int)
    requires
        0 < k <= s.len(),
        forall|m: int| 0 <= m < k ==> !is_ws(#[trigger] s[m]),
        k == s.len() || is_ws(s[k]),
    ensures
        run_len(s) == k,
        fields(s) == seq![s.take(k)] + fields(s.skip(k)),
    decreases k,
{
    if k == 1 {
        assert(run_len(s.skip(1)) == 0) by {
            if s.skip(1).len() > 0 {
                assert(s.skip(1)[0] == s[1]);
            }
        }
    } else {
        assert forall|m: int| 0 <= m < k - 1 implies !is_ws(#[trigger] s.skip(1)[m]) by {
            assert(s.skip(1)[m] == s[m + 1]);
        }
        if k < s.len() {
            assert(s.skip(1)[k - 1] == s[k]);
        }
        lemma_fields_run(s.skip(1), k - 1);
    }
    lemma_run_len_bound(s);
}

/// The start time is read after the last `") "`, so a command name that
/// itself holds `") "` does not shift the fields: for a line that is any
/// `head`, then `") "`, then a `rest` without `") "`, the start time is the
/// 20th whitespace-separated field of `rest`, read as a number.
pub proof fn law_start_time_after_last_paren(head: Seq<char>, rest: Seq<char>)
    requires
        forall|k: int| !#[trigger] occurs_at(rest, paren_space(), k),
    ensures
        start_time_ticks(head + paren_space() + rest) == (if fields(rest).len() > 19 {
            parse_unsigned(fields(rest)[19], u64::MAX as nat)
        } else {
            None
        }),
{
    let s = head + paren_space() + rest;
    let h = head.len() as int;
    assert(s.subrange(h, h + 2) =~= paren_space());
    assert(occurs_at(s, paren_space(), h));
    assert forall|j: int| j > h implies !#[trigger] occurs_at(s, paren_space(), j) by {
        if occurs_at(s, paren_space(), j) {
            if j == h + 1 {
                assert(s.subrange(j, j + 2)[0] == s[h + 1]);
            } else {
                assert(rest.subrange(j - h - 2, j - h) =~= s.subrange(j, j + 2));
                assert(occurs_at(rest, paren_space(), j - h - 2));
            }
        }
    }
    assert(is_last_paren_space(s, h));
    let c = choose|c: int| #[trigger] is_last_paren_space(s, c);
    if c != h {
        if c < h {
            assert(!occurs_at(s, paren_space(), h));
        } else {
            assert(!occurs_at(s, paren_space(), c));
        }
    }
    assert(last_paren_space(s) == Some(h));
    assert(s.skip(h + 2) =~= rest);
}

/// Finds the last `") "` by scanning from the end.
fn find_last_paren_space(v: &Vec<char>) -> (r: Option<usize>)
    ensures
        match r {
            Some(i) => last_paren_space(v@) == Some(i as int) && i + 2 <= v@.len(),
            None => last_paren_space(v@) is None,
        },
{
    if v.len() < 2 {
        proof {
            assert forall|i: int| !#[trigger] is_last_paren_space(v@, i) by {}
        }
        return None;
    }
    let mut i: usize = v.len() - 1;
    while i > 0
        invariant
            1 <= i + 1 <= v.len(),
            forall|j: int| j >= i ==> !#[trigger] occurs_at(v@, paren_space(), j),
        decreases i,
    {
        let at = i - 1;
        if v[at] == ')' && v[at + 1] == ' ' {
            proof {
                assert(v@.subrange(at as int, at + 2) =~= paren_space());
                assert(is_last_paren_space(v@, at as int));
                let c = choose|c: int| #[trigger] is_last_paren_space(v@, c);
                if c < at {
                    assert(!occurs_at(v@, paren_space(), at as int));
                } else if c > at {
                    assert(!occurs_at(v@, paren_space(), c));
                }
            }
            return Some(at);
        }
        proof {
            assert forall|j: int| j >= at implies !#[trigger] occurs_at(v@, paren_space(), j) by {
                if j == at && occurs_at(v@, paren_space(), j) {
                    assert(v@.subrange(j, j + 2)[0] == v@[j]);
                    assert(v@.subrange(j, j + 2)[1] == v@[j + 1]);
                }
            }
        }
        i = at;
    }
    proof {
        assert forall|c: int| !#[trigger] is_last_paren_space(v@, c) by {
            if is_last_paren_space(v@, c) {
                assert(occurs_at(v@, paren_space(), c));
            }
        }
    }
    None
}

/// Reads the start time from the text of `/proc/self/stat`.
pub fn process_start_time_ticks(stat: &str) -> (r: Option<u64>)
    ensures
        match r {
            Some(t) => start_time_ticks(stat@) == Some(t as nat),
            None => start_time_ticks(stat@) is None,
        },
{
    let v = chars_of(stat);
    let p = match find_last_paren_space(&v) {
        Some(p) => p,
        None => {
            return None;
        },
    };
    let start = p + 2;
    let ghost tail = v@.skip(start as int);
    let n = v.len();
    let mut i = start;
    let mut count: usize = 0;
    let ghost mut found: Seq<Seq<char>> = seq![];
    assert(v@.skip(start as int).skip(0) =~= tail);
    loop
        invariant
            start <= i <= n,
            n == v@.len(),
            v@ == stat@,
            last_paren_space(v@) == Some(p as int),
            start == p + 2,
            tail == v@.skip(start as int),
            count == found.len(),
            count <= 19,
            fields(tail) == found + fields(v@.skip(i as int)),
        decreases n - i,
    {
        let ghost i0 = i;
        while i < n && is_ws_char(v[i])
            invariant
                start <= i0 <= i <= n,
                n == v@.len(),
                fields(tail) == found + fields(v@.skip(i as int)),
            decreases n - i,
        {
            assert(v@.skip(i as int).skip(1) =~= v@.skip(i + 1));
            i += 1;
        }
        if i == n {
            proof {
                assert(v@.skip(i as int) =~= Seq::<char>::empty());
                assert(fields(tail) =~= found);
            }
            assert(fields(tail).len() <= 19);
            return None;
        }
        let mut j = i + 1;
        while j < n && !is_ws_char(v[j])
            invariant
                i < j <= n,
                n == v@.len(),
                forall|m: int| i <= m < j ==> !is_ws(#[trigger] v@[m]),
            decreases n - j,
        {
            j += 1;
        }
        let ghost s = v@.skip(i as int);
        proof {
            assert forall|m: int| 0 <= m < j - i implies !is_ws(#[trigger] s[m]) by {
                assert(s[m] == v@[i + m]);
            }
            if j < n {
                assert(s[j - i] == v@[j as int]);
            }
            lemma_fields_run(s, j - i);
            assert(s.skip(j - i) =~= v@.skip(j as int));
            assert(s.take(j - i) =~= v@.subrange(i as int, j as int));
        }
        if count == 19 {
            let mut token: Vec<char> = Vec::new();
            let mut k = i;
            while k < j
                invariant
                    i <= k <= j <= n,
                    n == v@.len(),
                    token@ =~= v@.subrange(i as int, k as int),
                decreases j - k,
            {
                token.push(v[k]);
                k += 1;
            }
            proof {
                let f = fields(tail);
                assert(f == found + (seq![s.take(j - i)] + fields(s.skip(j - i))));
                assert(f[19] == s.take(j - i));
                assert(token@ == f[19]);
            }
            return parse_unsigned_chars(&token, u64::MAX);
        }
        proof {
            found = found.push(s.take(j - i));
            assert(fields(tail) =~= found + fields(v@.skip(j as int)));
        }
        count += 1;
        i = j;
    }
}

} // verus!
