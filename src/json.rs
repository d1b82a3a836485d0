//! A JSON document as plain values, and field extraction from objects.
use vstd::prelude::*;

verus! {

/// A JSON value. Integers that fit in `i64` are held as such; any other
/// number keeps its decimal text. An object keeps its members in order.
#[derive(Debug)]
pub enum Json {
    Null,
    Bool(bool),
    Int(i64),
    Number(String),
    Str(String),
    Array(Vec<Json>),
    Object(Vec<(String, Json)>),
}

/// The value of the first member named `k`.
pub open spec fn lookup(m: Seq<(String, Json)>, k: Seq<char>) -> Option<Json>
    decreases m.len(),
{
    if m.len() == 0 {
        None
    } else if m[0].0@ == k {
        Some(m[0].1)
    } else {
        lookup(m.subrange(1, m.len() as int), k)
    }
}

/// Where member names are distinct, each member is found under its own name.
pub proof fn lemma_lookup_distinct(m: Seq<(String, Json)>, i: int)
    requires
        0 <= i < m.len(),
        forall|a: int, b: int| 0 <= a < b < m.len() ==> m[a].0@ != m[b].0@,
    ensures
        lookup(m, m[i].0@) == Some(m[i].1),
    decreases i,
{
    if i > 0 {
        let rest = m.subrange(1, m.len() as int);
        assert(rest[i - 1] == m[i]);
        assert(m[0].0@ != m[i].0@);
        lemma_lookup_distinct(rest, i - 1);
    }
}

/// The member `k` of `j`, if `j` is an object that has one.
pub open spec fn field(j: Json, k: Seq<char>) -> Option<Json> {
    match j {
        Json::Object(m) => lookup(m@, k),
        _ => None,
    }
}

/// No two names of `keys` are equal.
pub open spec fn distinct_names(keys: Seq<&str>) -> bool {
    forall|a: int, b: int| 0 <= a < b < keys.len() ==> keys[a]@ != keys[b]@
}

/// Moves out of `members` the value of each name of `keys`, position by
/// position: the first member that bears the name wins.
pub fn take_fields(members: Vec<(String, Json)>, keys: &Vec<&str>) -> (r: Vec<Option<Json>>)
    requires
        distinct_names(keys@),
    ensures
        r@.len() == keys@.len(),
        forall|i: int| 0 <= i < keys@.len() ==> r@[i] == lookup(members@, keys@[i]@),
{
    let ghost orig = members@;
    let mut rest = members;
    let mut slots: Vec<Option<Json>> = Vec::new();
    let mut i: usize = 0;
    while i < keys.len()
        invariant
            i <= keys@.len(),
            slots@.len() == i,
            forall|t: int| 0 <= t < i ==> slots@[t] is None,
        decreases keys@.len() - i,
    {
        slots.push(None);
        i = i + 1;
    }
    assert(orig.subrange(orig.len() as int, orig.len() as int).len() == 0);
    while rest.len() > 0
        invariant
            rest@ == orig.subrange(0, rest@.len() as int),
            rest@.len() <= orig.len(),
            slots@.len() == keys@.len(),
            distinct_names(keys@),
            forall|t: int|
                0 <= t < keys@.len() ==> slots@[t] == lookup(
                    orig.subrange(rest@.len() as int, orig.len() as int),
                    keys@[t]@,
                ),
        decreases rest@.len(),
    {
        let ghost n = rest@.len() as int;
        let ghost old_slots = slots@;
        let (name, value) = match rest.pop() {
            Some(e) => e,
            None => {
                return slots;
            },
        };
        let ghost suffix = orig.subrange(n - 1, orig.len() as int);
        assert(suffix[0] == orig[n - 1]);
        assert(suffix.subrange(1, suffix.len() as int) =~= orig.subrange(n, orig.len() as int));
        let mut j: usize = 0;
        let mut found = false;
        while j < keys.len() && !found
            invariant
                j <= keys@.len(),
                found ==> j >= 1 && name@ == keys@[j - 1]@,
                !found ==> forall|t: int| 0 <= t < j ==> name@ != keys@[t]@,
            decreases keys@.len() - j + (if found { 0int } else { 1int }),
        {
            let key: String = keys[j].to_owned();
            if name == key {
                found = true;
            }
            j = j + 1;
        }
        if found {
            slots.set(j - 1, Some(value));
        }
        assert forall|t: int| 0 <= t < keys@.len() implies slots@[t] == lookup(
            suffix,
            keys@[t]@,
        ) by {
            if found && t != j - 1 {
                assert(keys@[t]@ != keys@[j - 1]@);
            }
        }
    }
    assert(orig.subrange(0, orig.len() as int) =~= orig);
    slots
}


/// No two members of `m` share a name.
pub open spec fn member_names_distinct(m: Seq<(String, Json)>) -> bool {
    forall|a: int, b: int| 0 <= a < b < m.len() ==> m[a].0@ != m[b].0@
}

/// No two pairs of `v` share a name.
pub open spec fn pair_names_distinct(v: Seq<(String, String)>) -> bool {
    forall|a: int, b: int| 0 <= a < b < v.len() ==> v[a].0@ != v[b].0@
}

/// Whether no two members share a name.
pub fn names_distinct(m: &Vec<(String, Json)>) -> (r: bool)
    ensures
        r == member_names_distinct(m@),
{
    let mut i: usize = 0;
    while i < m.len()
        invariant
            i <= m@.len(),
            forall|a: int, b: int| 0 <= a < i && a < b < m@.len() ==> m@[a].0@ != m@[b].0@,
        decreases m@.len() - i,
    {
        let mut k: usize = i + 1;
        while k < m.len()
            invariant
                i < m@.len(),
                i + 1 <= k <= m@.len(),
                forall|a: int, b: int| 0 <= a < i && a < b < m@.len() ==> m@[a].0@ != m@[b].0@,
                forall|b: int| i < b < k ==> m@[i as int].0@ != m@[b].0@,
            decreases m@.len() - k,
        {
            if m[i].0 == m[k].0 {
                return false;
            }
            k = k + 1;
        }
        i = i + 1;
    }
    true
}

/// The member holds a string.
pub open spec fn ok_str(o: Option<Json>) -> bool {
    o matches Some(Json::Str(_))
}

/// `v` is the string that the member holds.
pub open spec fn is_str(o: Option<Json>, v: String) -> bool {
    o == Some(Json::Str(v))
}

pub fn take_str(o: Option<Json>) -> (r: Option<String>)
    ensures
        r is Some <==> ok_str(o),
        r matches Some(v) ==> is_str(o, v),
{
    match o {
        Some(Json::Str(s)) => Some(s),
        _ => None,
    }
}

/// The member holds a boolean.
pub open spec fn ok_bool(o: Option<Json>) -> bool {
    o matches Some(Json::Bool(_))
}

pub open spec fn is_bool(o: Option<Json>, v: bool) -> bool {
    o == Some(Json::Bool(v))
}

pub fn take_bool(o: Option<Json>) -> (r: Option<bool>)
    ensures
        r is Some <==> ok_bool(o),
        r matches Some(v) ==> is_bool(o, v),
{
    match o {
        Some(Json::Bool(b)) => Some(b),
        _ => None,
    }
}

/// The member holds an integer in the range of `i64`.
pub open spec fn ok_i64(o: Option<Json>) -> bool {
    o matches Some(Json::Int(_))
}

pub open spec fn is_i64(o: Option<Json>, v: i64) -> bool {
    o == Some(Json::Int(v))
}

pub fn take_i64(o: Option<Json>) -> (r: Option<i64>)
    ensures
        r is Some <==> ok_i64(o),
        r matches Some(v) ==> is_i64(o, v),
{
    match o {
        Some(Json::Int(n)) => Some(n),
        _ => None,
    }
}

/// The member holds an integer in the range of `i32`.
pub open spec fn ok_i32(o: Option<Json>) -> bool {
    o matches Some(Json::Int(n)) && i32::MIN <= n <= i32::MAX
}

pub open spec fn is_i32(o: Option<Json>, v: i32) -> bool {
    o == Some(Json::Int(v as i64))
}

pub fn take_i32(o: Option<Json>) -> (r: Option<i32>)
    ensures
        r is Some <==> ok_i32(o),
        r matches Some(v) ==> is_i32(o, v),
{
    match o {
        Some(Json::Int(n)) => {
            if i32::MIN as i64 <= n && n <= i32::MAX as i64 {
                Some(n as i32)
            } else {
                None
            }
        },
        _ => None,
    }
}

/// An optional string member: absent, `null`, or a string.
pub open spec fn ok_opt_str(o: Option<Json>) -> bool {
    o is None || o == Some(Json::Null) || o matches Some(Json::Str(_))
}

pub open spec fn is_opt_str(o: Option<Json>, v: Option<String>) -> bool {
    match v {
        None => o is None || o == Some(Json::Null),
        Some(s) => o == Some(Json::Str(s)),
    }
}

pub fn take_opt_str(o: Option<Json>) -> (r: Option<Option<String>>)
    ensures
        r is Some <==> ok_opt_str(o),
        r matches Some(v) ==> is_opt_str(o, v),
{
    match o {
        None => Some(None),
        Some(Json::Null) => Some(None),
        Some(Json::Str(s)) => Some(Some(s)),
        _ => None,
    }
}

/// The member is an array of strings.
pub open spec fn ok_str_list(o: Option<Json>) -> bool {
    o matches Some(Json::Array(a)) && forall|i: int| 0 <= i < a@.len() ==> a@[i] is Str
}

pub open spec fn is_str_list(o: Option<Json>, v: Vec<String>) -> bool {
    o matches Some(Json::Array(a)) && a@.len() == v@.len() && forall|i: int|
        0 <= i < a@.len() ==> a@[i] == Json::Str(v@[i])
}

pub fn take_str_list(o: Option<Json>) -> (r: Option<Vec<String>>)
    ensures
        r is Some <==> ok_str_list(o),
        r matches Some(v) ==> is_str_list(o, v),
{
    let items = match o {
        Some(Json::Array(a)) => a,
        _ => {
            return None;
        },
    };
    let ghost orig = items@;
    assert(o matches Some(Json::Array(a)) && a@ == orig);
    let mut rest = items;
    let mut out: Vec<String> = Vec::new();
    while rest.len() > 0
        invariant
            o matches Some(Json::Array(a)) && a@ == orig,
            out@.len() + rest@.len() == orig.len(),
            rest@ == orig.subrange(out@.len() as int, orig.len() as int),
            forall|i: int| 0 <= i < out@.len() ==> orig[i] == Json::Str(out@[i]),
        decreases rest@.len(),
    {
        let ghost k = out@.len() as int;
        let item = rest.remove(0);
        assert(item == orig[k]);
        assert(rest@ =~= orig.subrange(k + 1, orig.len() as int));
        match item {
            Json::Str(s) => out.push(s),
            _ => {
                assert(!(orig[k] is Str));
                assert(!ok_str_list(o));
                return None;
            },
        }
    }
    Some(out)
}

/// The member is an object whose member names are distinct.
pub open spec fn ok_members(o: Option<Json>) -> bool {
    o matches Some(Json::Object(m)) && member_names_distinct(m@)
}

pub open spec fn is_members(o: Option<Json>, v: Vec<(String, Json)>) -> bool {
    o == Some(Json::Object(v))
}

pub fn take_members(o: Option<Json>) -> (r: Option<Vec<(String, Json)>>)
    ensures
        r is Some <==> ok_members(o),
        r matches Some(v) ==> is_members(o, v),
{
    match o {
        Some(Json::Object(m)) => {
            if names_distinct(&m) {
                Some(m)
            } else {
                None
            }
        },
        _ => None,
    }
}

/// The member is present, whatever it holds.
pub open spec fn ok_json(o: Option<Json>) -> bool {
    o is Some
}

pub open spec fn is_json(o: Option<Json>, v: Json) -> bool {
    o == Some(v)
}

pub fn take_json(o: Option<Json>) -> (r: Option<Json>)
    ensures
        r is Some <==> ok_json(o),
        r matches Some(v) ==> is_json(o, v),
{
    o
}

/// Moves the entry at `i` out of `slots`, leaving `None` there.
pub fn take_slot(slots: &mut Vec<Option<Json>>, i: usize) -> (r: Option<Json>)
    requires
        i < old(slots)@.len(),
    ensures
        r == old(slots)@[i as int],
        final(slots)@ == old(slots)@.update(i as int, None),
{
    let mut out: Option<Json> = None;
    slots.set_and_swap(i, &mut out);
    out
}

/// The string member `k` of `j`, if it has one.
pub open spec fn str_member(j: Json, k: Seq<char>) -> Option<String> {
    match field(j, k) {
        Some(Json::Str(s)) => Some(s),
        _ => None,
    }
}

/// Reads a string member without taking the document apart.
pub fn read_str_member(j: &Json, k: &str) -> (r: Option<String>)
    ensures
        r == str_member(*j, k@),
{
    let key: String = k.to_owned();
    match j {
        Json::Object(m) => {
            let mut i: usize = 0;
            assert(m@.subrange(0, m@.len() as int) =~= m@);
            while i < m.len()
                invariant
                    i <= m@.len(),
                    key@ == k@,
                    field(*j, k@) == lookup(m@, k@),
                    lookup(m@, k@) == lookup(m@.subrange(i as int, m@.len() as int), k@),
                decreases m@.len() - i,
            {
                let ghost rest = m@.subrange(i as int, m@.len() as int);
                assert(rest.subrange(1, rest.len() as int) =~= m@.subrange(i + 1, m@.len() as int));
                assert(rest[0] == m@[i as int]);
                if m[i].0 == key {
                    return match &m[i].1 {
                        Json::Str(s) => Some(s.clone()),
                        _ => None,
                    };
                }
                i = i + 1;
            }
            None
        },
        _ => None,
    }
}

/// The member is an object whose members have distinct names and all hold
/// strings.
pub open spec fn ok_str_map(o: Option<Json>) -> bool {
    o matches Some(Json::Object(m)) && member_names_distinct(m@) && forall|i: int|
        0 <= i < m@.len() ==> m@[i].1 is Str
}

/// `v` holds the members of the object in order, with their strings.
pub open spec fn is_str_map(o: Option<Json>, v: Vec<(String, String)>) -> bool {
    o matches Some(Json::Object(m)) && m@.len() == v@.len() && forall|i: int|
        0 <= i < m@.len() ==> m@[i].0 == v@[i].0 && m@[i].1 == Json::Str(v@[i].1)
}

pub fn take_str_map(o: Option<Json>) -> (r: Option<Vec<(String, String)>>)
    ensures
        r is Some <==> ok_str_map(o),
        r matches Some(v) ==> is_str_map(o, v),
{
    let members = match o {
        Some(Json::Object(m)) => m,
        _ => {
            return None;
        },
    };
    if !names_distinct(&members) {
        return None;
    }
    let ghost orig = members@;
    let mut rest = members;
    let mut out: Vec<(String, String)> = Vec::new();
    while rest.len() > 0
        invariant
            o matches Some(Json::Object(m)) && m@ == orig,
            out@.len() + rest@.len() == orig.len(),
            rest@ == orig.subrange(out@.len() as int, orig.len() as int),
            forall|i: int|
                0 <= i < out@.len() ==> orig[i].0 == out@[i].0 && orig[i].1 == Json::Str(out@[i].1),
        decreases rest@.len(),
    {
        let ghost k = out@.len() as int;
        let (name, value) = rest.remove(0);
        assert(rest@ =~= orig.subrange(k + 1, orig.len() as int));
        match value {
            Json::Str(s) => out.push((name, s)),
            _ => {
                assert(!(orig[k].1 is Str));
                assert(!ok_str_map(o));
                return None;
            },
        }
    }
    Some(out)
}

/// An optional string as a member: `null` where absent.
pub fn opt_str_json(v: &Option<String>) -> (r: Json)
    ensures
        ok_opt_str(Some(r)),
        is_opt_str(Some(r), *v),
{
    match v {
        Some(s) => Json::Str(s.clone()),
        None => Json::Null,
    }
}

/// Strings as a JSON array, in order.
pub fn str_list_json(v: &Vec<String>) -> (r: Json)
    ensures
        ok_str_list(Some(r)),
        is_str_list(Some(r), *v),
{
    let mut out: Vec<Json> = Vec::new();
    let mut i: usize = 0;
    while i < v.len()
        invariant
            i <= v@.len(),
            out@.len() == i,
            forall|t: int| 0 <= t < i ==> out@[t] == Json::Str(v@[t]),
        decreases v@.len() - i,
    {
        out.push(Json::Str(v[i].clone()));
        i = i + 1;
    }
    Json::Array(out)
}

/// Name and string pairs as a JSON object, in order.
pub fn str_map_json(v: &Vec<(String, String)>) -> (r: Json)
    requires
        pair_names_distinct(v@),
    ensures
        ok_str_map(Some(r)),
        is_str_map(Some(r), *v),
{
    let mut out: Vec<(String, Json)> = Vec::new();
    let mut i: usize = 0;
    while i < v.len()
        invariant
            i <= v@.len(),
            out@.len() == i,
            forall|t: int| 0 <= t < i ==> out@[t].0 == v@[t].0 && out@[t].1 == Json::Str(v@[t].1),
        decreases v@.len() - i,
    {
        out.push((v[i].0.clone(), Json::Str(v[i].1.clone())));
        i = i + 1;
    }
    Json::Object(out)
}

} // verus!
