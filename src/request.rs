//! Requests as plain values: method, endpoint URL, query pairs and the
//! `Authorization` header. Sending them is the caller's business.
use vstd::prelude::*;
use vstd::string::*;

verus! {

#[derive(Debug, Clone, Copy, PartialEq, Eq, Structural)]
pub enum HttpMethod {
    Get,
    Post,
}

/// One call to the remote API, ready to be sent.
#[derive(Debug)]
pub struct ApiRequest {
    pub method: HttpMethod,
    pub url: String,
    /// Query pairs, each sent once, in this order.
    pub query: Vec<(String, String)>,
    /// Value of the `Authorization` header.
    pub authorization: String,
}

/// The values sent under the name `n`, in order.
pub open spec fn sent(q: Seq<(String, String)>, n: Seq<char>) -> Seq<Seq<char>>
    decreases q.len(),
{
    if q.len() == 0 {
        Seq::empty()
    } else {
        let rest = sent(q.drop_last(), n);
        if q.last().0@ == n {
            rest.push(q.last().1@)
        } else {
            rest
        }
    }
}

/// What an optional parameter contributes: its value once, or nothing.
pub open spec fn opt_sent(v: Option<String>) -> Seq<Seq<char>> {
    match v {
        Some(s) => seq![s@],
        None => Seq::empty(),
    }
}

pub open spec fn bearer(token: Seq<char>) -> Seq<char> {
    "Bearer "@ + token
}

/// The query as name and value texts, in order.
pub open spec fn query_view(q: Seq<(String, String)>) -> Seq<(Seq<char>, Seq<char>)> {
    q.map_values(|p: (String, String)| (p.0@, p.1@))
}

/// What an optional parameter adds to the query: one pair, or nothing.
pub open spec fn opt_pair(name: Seq<char>, v: Option<String>) -> Seq<(Seq<char>, Seq<char>)> {
    match v {
        Some(s) => seq![(name, s@)],
        None => Seq::empty(),
    }
}

/// What an optional integer parameter adds to the query.
pub open spec fn int_pair(name: Seq<char>, v: Option<i32>) -> Seq<(Seq<char>, Seq<char>)> {
    match v {
        Some(n) => seq![(name, decimal_text(n as int))],
        None => Seq::empty(),
    }
}

/// What an optional boolean parameter adds to the query.
pub open spec fn bool_pair(name: Seq<char>, v: Option<bool>) -> Seq<(Seq<char>, Seq<char>)> {
    match v {
        Some(b) => seq![(name, if b { "true"@ } else { "false"@ })],
        None => Seq::empty(),
    }
}

/// Appends `name=value` where a value is given, and leaves the query as it
/// was otherwise.
pub fn add_param_to_url(query: &mut Vec<(String, String)>, name: &str, value: Option<String>)
    ensures
        value is None ==> final(query)@ == old(query)@,
        value matches Some(v) ==> {
            &&& final(query)@.len() == old(query)@.len() + 1
            &&& final(query)@.subrange(0, old(query)@.len() as int) == old(query)@
            &&& final(query)@.last().0@ == name@
            &&& final(query)@.last().1 == v
        },
        query_view(final(query)@) == query_view(old(query)@) + opt_pair(name@, value),
        forall|n: Seq<char>|
            #[trigger] sent(final(query)@, n) == sent(old(query)@, n) + (if n == name@ {
                opt_sent(value)
            } else {
                Seq::empty()
            }),
{
    let ghost q0 = query@;
    match value {
        Some(v) => {
            let ghost sv = v;
            query.push((name.to_owned(), v));
            assert(query@.drop_last() =~= q0);
            assert(query@.subrange(0, q0.len() as int) =~= q0);
            assert(query_view(query@) =~= query_view(q0) + opt_pair(name@, Some(sv)));
            assert forall|n: Seq<char>| #[trigger]
                sent(query@, n) == sent(q0, n) + (if n == name@ {
                    opt_sent(Some(sv))
                } else {
                    Seq::empty()
                }) by {
                assert(sent(q0, n) + Seq::<Seq<char>>::empty() =~= sent(q0, n));
                assert(sent(q0, n).push(sv@) =~= sent(q0, n) + seq![sv@]);
            }
        },
        None => {
            assert(query_view(q0) + opt_pair(name@, None) =~= query_view(q0));
            assert forall|n: Seq<char>| #[trigger]
                sent(query@, n) == sent(q0, n) + (if n == name@ {
                    opt_sent(None)
                } else {
                    Seq::empty()
                }) by {
                assert(sent(q0, n) + Seq::<Seq<char>>::empty() =~= sent(q0, n));
            }
        },
    }
}

/// The text of a boolean as it goes into a query.
pub fn bool_text(b: bool) -> (r: String)
    ensures
        r@ == (if b {
            "true"@
        } else {
            "false"@
        }),
{
    if b {
        "true".to_owned()
    } else {
        "false".to_owned()
    }
}

pub open spec fn digit_char(d: nat) -> char {
    if d == 0 { '0' } else if d == 1 { '1' } else if d == 2 { '2' } else if d == 3 { '3' }
    else if d == 4 { '4' } else if d == 5 { '5' } else if d == 6 { '6' } else if d == 7 { '7' }
    else if d == 8 { '8' } else { '9' }
}

pub open spec fn digits(n: nat) -> Seq<char>
    decreases n,
{
    if n < 10 {
        seq![digit_char(n)]
    } else {
        digits(n / 10) + seq![digit_char(n % 10)]
    }
}

/// Decimal text of an integer, with a leading `-` when negative.
pub open spec fn decimal_text(n: int) -> Seq<char> {
    if n < 0 {
        seq!['-'] + digits((-n) as nat)
    } else {
        digits(n as nat)
    }
}

/// Relies on `ToString` for `i32` (through `Display`): the number in
/// decimal, with a leading `-` when negative.
#[verifier::external_body]
fn int_text(n: i32) -> (r: String)
    ensures
        r@ == decimal_text(n as int),
{
    n.to_string()
}

/// What an optional integer parameter contributes.
pub open spec fn int_sent(v: Option<i32>) -> Seq<Seq<char>> {
    match v {
        Some(n) => seq![decimal_text(n as int)],
        None => Seq::empty(),
    }
}

/// What an optional boolean parameter contributes.
pub open spec fn bool_sent(v: Option<bool>) -> Seq<Seq<char>> {
    match v {
        Some(b) => seq![if b { "true"@ } else { "false"@ }],
        None => Seq::empty(),
    }
}

/// Optional integer parameter as query text.
pub fn opt_int_text(v: Option<i32>) -> (r: Option<String>)
    ensures
        opt_sent(r) == int_sent(v),
        forall|name: Seq<char>| #[trigger] opt_pair(name, r) == int_pair(name, v),
{
    match v {
        Some(n) => Some(int_text(n)),
        None => None,
    }
}

/// Optional boolean parameter as query text.
pub fn opt_bool_text(v: Option<bool>) -> (r: Option<String>)
    ensures
        opt_sent(r) == bool_sent(v),
        forall|name: Seq<char>| #[trigger] opt_pair(name, r) == bool_pair(name, v),
{
    match v {
        Some(b) => Some(bool_text(b)),
        None => None,
    }
}

/// The `Authorization` header for a bearer token.
pub fn bearer_header(token: &String) -> (r: String)
    ensures
        r@ == bearer(token@),
{
    "Bearer ".to_owned().concat(token.as_str())
}

} // verus!
