//! Who a request counts against, from the values of its headers.

use vstd::prelude::*;
use vstd::string::StrSliceExecFns;
use crate::query::{trim_text, trimmed};
use crate::text::push_text;

verus! {

/// The text of `s` before its first comma (all of it without one).
pub open spec fn first_field(s: Seq<char>) -> Seq<char>
    decreases s.len(),
{
    if s.len() == 0 {
        s
    } else if s[0] == ',' {
        Seq::empty()
    } else {
        seq![s[0]] + first_field(s.drop_first())
    }
}

proof fn lemma_first_field(s: Seq<char>, i: int)
    requires
        0 <= i <= s.len(),
        forall|j: int| 0 <= j < i ==> #[trigger] s[j] != ',',
        i == s.len() || s[i] == ',',
    ensures
        first_field(s) == s.subrange(0, i),
    decreases s.len(),
{
    if s.len() > 0 {
        if i == 0 {
            assert(s.subrange(0, 0) =~= Seq::<char>::empty());
        } else {
            let t = s.drop_first();
            assert forall|j: int| 0 <= j < i - 1 implies #[trigger] t[j] != ',' by {
                assert(t[j] == s[j + 1]);
            }
            lemma_first_field(t, i - 1);
            assert(seq![s[0]] + t.subrange(0, i - 1) =~= s.subrange(0, i));
        }
    } else {
        assert(s.subrange(0, 0) =~= s);
    }
}

/// The text before the first comma.
pub fn first_field_text(s: &str) -> (r: &str)
    ensures
        r@ == first_field(s@),
{
    let n = s.unicode_len();
    let mut i: usize = 0;
    while i < n && s.get_char(i) != ','
        invariant
            n == s@.len(),
            i <= n,
            forall|j: int| 0 <= j < i ==> #[trigger] s@[j] != ',',
        decreases n - i,
    {
        i = i + 1;
    }
    proof {
        lemma_first_field(s@, i as int);
    }
    s.substring_char(0, i)
}

/// The client address of a forwarding header: its first entry, trimmed.
pub open spec fn forwarded_client(xff: Seq<char>) -> Seq<char> {
    trimmed(first_field(xff))
}

/// The identity and plan of a request: the user id header with its plan
/// header ("free" without one); otherwise "ip:" and the first address of the
/// forwarding header, else the peer address, else "unknown", on the free plan.
pub open spec fn identity_of(
    user_id: Option<Seq<char>>,
    plan: Option<Seq<char>>,
    forwarded_for: Option<Seq<char>>,
    remote_ip: Option<Seq<char>>,
) -> (Seq<char>, Seq<char>) {
    match user_id {
        Some(u) => (u, match plan {
            Some(p) => p,
            None => "free"@,
        }),
        None => {
            let ip = match forwarded_for {
                Some(x) => forwarded_client(x),
                None => match remote_ip {
                    Some(r) => r,
                    None => "unknown"@,
                },
            };
            ("ip:"@ + ip, "free"@)
        },
    }
}

/// The characters of an optional string slice.
pub open spec fn opt_view(o: Option<&str>) -> Option<Seq<char>> {
    match o {
        Some(s) => Some(s@),
        None => None,
    }
}

/// The identity and plan a request counts against (see `identity_of`).
pub fn effective_user(
    user_id: Option<&str>,
    plan: Option<&str>,
    forwarded_for: Option<&str>,
    remote_ip: Option<&str>,
) -> (r: (String, String))
    ensures
        (r.0@, r.1@) == identity_of(
            opt_view(user_id),
            opt_view(plan),
            opt_view(forwarded_for),
            opt_view(remote_ip),
        ),
{
    match user_id {
        Some(u) => {
            let p = match plan {
                Some(p) => p.to_owned(),
                None => "free".to_owned(),
            };
            (u.to_owned(), p)
        },
        None => {
            let ip: &str = match forwarded_for {
                Some(x) => trim_text(first_field_text(x)),
                None => match remote_ip {
                    Some(r) => r,
                    None => "unknown",
                },
            };
            let mut id = String::new();
            push_text(&mut id, "ip:");
            push_text(&mut id, ip);
            assert(id@ =~= "ip:"@ + ip@);
            (id, "free".to_owned())
        },
    }
}

/// The key a request is rate limited by: the first forwarded address, else
/// the real-ip header, else the peer address, skipping blank values.
pub open spec fn client_key_of(
    forwarded_for: Option<Seq<char>>,
    real_ip: Option<Seq<char>>,
    peer: Option<Seq<char>>,
) -> Option<Seq<char>> {
    if forwarded_for is Some && forwarded_client(forwarded_for->Some_0).len() > 0 {
        Some(forwarded_client(forwarded_for->Some_0))
    } else if real_ip is Some && trimmed(real_ip->Some_0).len() > 0 {
        Some(trimmed(real_ip->Some_0))
    } else {
        peer
    }
}

/// The rate-limit key of a request (see `client_key_of`).
pub fn client_ip(forwarded_for: Option<&str>, real_ip: Option<&str>, peer: Option<&str>) -> (r: Option<
    String,
>)
    ensures
        opt_string_view(r) == client_key_of(opt_view(forwarded_for), opt_view(real_ip), opt_view(peer)),
{
    if let Some(x) = forwarded_for {
        let first = trim_text(first_field_text(x));
        if first.unicode_len() > 0 {
            return Some(first.to_owned());
        }
    }
    if let Some(v) = real_ip {
        let t = trim_text(v);
        if t.unicode_len() > 0 {
            return Some(t.to_owned());
        }
    }
    match peer {
        Some(p) => Some(p.to_owned()),
        None => None,
    }
}

/// The characters of an optional string.
pub open spec fn opt_string_view(o: Option<String>) -> Option<Seq<char>> {
    match o {
        Some(s) => Some(s@),
        None => None,
    }
}

} // verus!
