//! Reading storage credentials out of a connection string.

use vstd::prelude::*;
use vstd::string::StrSliceExecFns;
use crate::identity::{opt_string_view, opt_view};
use crate::query::{trim_text, trimmed};
use crate::text::same_text;

verus! {

/// `s` cut at its first `sep`: the text before it, and the text after it if
/// there is one.
pub open spec fn split_first(s: Seq<char>, sep: char) -> (Seq<char>, Option<Seq<char>>)
    decreases s.len(),
{
    if s.len() == 0 {
        (s, None)
    } else if s[0] == sep {
        (Seq::empty(), Some(s.drop_first()))
    } else {
        let (h, t) = split_first(s.drop_first(), sep);
        (seq![s[0]] + h, t)
    }
}

proof fn lemma_split_first_shorter(s: Seq<char>, sep: char)
    ensures
        split_first(s, sep).1 matches Some(r) ==> r.len() < s.len(),
    decreases s.len(),
{
    if s.len() > 0 && s[0] != sep {
        lemma_split_first_shorter(s.drop_first(), sep);
    }
}

proof fn lemma_split_first_at(s: Seq<char>, sep: char, i: int)
    requires
        0 <= i <= s.len(),
        forall|j: int| 0 <= j < i ==> #[trigger] s[j] != sep,
        i == s.len() || s[i] == sep,
    ensures
        split_first(s, sep) == if i == s.len() {
            (s, None::<Seq<char>>)
        } else {
            (s.subrange(0, i), Some(s.subrange(i + 1, s.len() as int)))
        },
    decreases s.len(),
{
    if s.len() == 0 {
    } else if i == 0 {
        assert(s.subrange(0, 0) =~= Seq::<char>::empty());
        assert(s.subrange(1, s.len() as int) =~= s.drop_first());
    } else {
        let t = s.drop_first();
        assert forall|j: int| 0 <= j < i - 1 implies #[trigger] t[j] != sep by {
            assert(t[j] == s[j + 1]);
        }
        lemma_split_first_at(t, sep, i - 1);
        if i == s.len() {
            assert(seq![s[0]] + t =~= s);
        } else {
            assert(seq![s[0]] + t.subrange(0, i - 1) =~= s.subrange(0, i));
            assert(t.subrange(i, t.len() as int) =~= s.subrange(i + 1, s.len() as int));
        }
    }
}

/// Cuts `s` at its first `sep`.
fn split_at_first(s: &str, sep: char) -> (r: (&str, Option<&str>))
    ensures
        (r.0@, opt_view(r.1)) == split_first(s@, sep),
{
    let n = s.unicode_len();
    let mut i: usize = 0;
    while i < n && s.get_char(i) != sep
        invariant
            n == s@.len(),
            i <= n,
            forall|j: int| 0 <= j < i ==> #[trigger] s@[j] != sep,
        decreases n - i,
    {
        i = i + 1;
    }
    proof {
        lemma_split_first_at(s@, sep, i as int);
    }
    if i == n {
        assert(s@.subrange(0, n as int) =~= s@);
        (s, None)
    } else {
        (s.substring_char(0, i), Some(s.substring_char(i + 1, n)))
    }
}

/// The value of the last `;`-separated `key=value` segment of `s` whose
/// trimmed key is `name`, trimmed (empty when the segment has no `=`).
pub open spec fn setting(s: Seq<char>, name: Seq<char>) -> Option<Seq<char>>
    decreases s.len(),
    via setting_decreases
{
    let (part, rest) = split_first(s, ';');
    let later = match rest {
        Some(r) => setting(r, name),
        None => None,
    };
    if later is Some {
        later
    } else {
        let (k, v) = split_first(part, '=');
        if trimmed(k) == name {
            Some(
                match v {
                    Some(v) => trimmed(v),
                    None => Seq::empty(),
                },
            )
        } else {
            None
        }
    }
}

#[via_fn]
proof fn setting_decreases(s: Seq<char>, name: Seq<char>) {
    lemma_split_first_shorter(s, ';');
}

/// The value of setting `name` in `s` (see `setting`).
pub fn setting_value(s: &str, name: &str) -> (r: Option<String>)
    ensures
        opt_string_view(r) == setting(s@, name@),
    decreases s@.len(),
{
    let (part, rest) = split_at_first(s, ';');
    proof {
        lemma_split_first_shorter(s@, ';');
    }
    let later = match rest {
        Some(r) => setting_value(r, name),
        None => None,
    };
    if later.is_some() {
        return later;
    }
    let (k, v) = split_at_first(part, '=');
    if same_text(trim_text(k), name) {
        let value = match v {
            Some(v) => trim_text(v).to_owned(),
            None => String::new(),
        };
        Some(value)
    } else {
        None
    }
}

/// The account name and key of a storage connection string, when it holds
/// both (`AccountName=...;AccountKey=...`; the last of each counts).
pub fn parse_conn_string(conn: &str) -> (r: Option<(String, String)>)
    ensures
        match (setting(conn@, "AccountName"@), setting(conn@, "AccountKey"@)) {
            (Some(a), Some(k)) => r matches Some((x, y)) && x@ == a && y@ == k,
            _ => r is None,
        },
{
    let acc = setting_value(conn, "AccountName");
    let key = setting_value(conn, "AccountKey");
    match (acc, key) {
        (Some(a), Some(k)) => Some((a, k)),
        _ => None,
    }
}

} // verus!
