//! Parsing a request's `Cookie` header: items are separated by `;`,
//! may carry leading spaces, and each item is `name=value`.

use vstd::prelude::*;
use vstd::string::StrSliceExecFns;
use vstd::string::StringExecFns;

verus! {

/// The length of the leading cookie item: the index of the first `;`,
/// or the whole length when there is none.
pub open spec fn item_end(h: Seq<char>) -> nat
    decreases h.len(),
{
    if h.len() == 0 {
        0
    } else if h[0] == ';' {
        0
    } else {
        1 + item_end(h.drop_first())
    }
}

pub proof fn lemma_item_end_at(h: Seq<char>, e: int)
    requires
        0 <= e <= h.len(),
        forall|k: int| 0 <= k < e ==> h[k] != ';',
        e < h.len() ==> h[e] == ';',
    ensures
        item_end(h) == e,
    decreases h.len(),
{
    if h.len() == 0 {
    } else if h[0] == ';' {
        assert(e == 0) by {
            if e > 0 {
                assert(h[0] != ';');
            }
        }
    } else {
        assert(e > 0) by {
            if e == 0 {
                assert(h[0] == ';');
            }
        }
        assert(forall|k: int| 0 <= k < e - 1 ==> h.drop_first()[k] == #[trigger] h[k + 1]);
        assert(e - 1 < h.drop_first().len() ==> h.drop_first()[e - 1] == h[e]);
        lemma_item_end_at(h.drop_first(), e - 1);
    }
}

/// The value under the given cookie name: the remainder of the first
/// item, leading spaces removed, that starts with `name=`.
pub open spec fn cookie_value_in(h: Seq<char>, name: Seq<char>) -> Option<Seq<char>>
    decreases h.len(),
{
    if h.len() > 0 && h[0] == ' ' {
        cookie_value_in(h.drop_first(), name)
    } else {
        let e = item_end(h);
        let item = h.take(e as int);
        if item.len() > name.len() && item.take(name.len() as int + 1) == name.push('=') {
            Some(item.skip(name.len() as int + 1))
        } else if e < h.len() {
            cookie_value_in(h.skip(e as int + 1), name)
        } else {
            None
        }
    }
}

/// Finds the session cookie's value in a `Cookie` header line.
pub fn cookie_value(header: &str, name: &str) -> (r: Option<String>)
    ensures
        match r {
            Some(v) => cookie_value_in(header@, name@) == Some(v@),
            None => cookie_value_in(header@, name@) is None,
        },
    decreases header@.len(), 1int,
{
    let hn = header.unicode_len();
    if hn > 0 && header.get_char(0) == ' ' {
        let rest = header.substring_char(1, hn);
        proof {
            assert(rest@ =~= header@.drop_first());
        }
        return cookie_value(rest, name);
    }
    let mut e: usize = 0;
    while e < hn
        invariant
            e <= hn,
            hn == header@.len(),
            forall|k: int| 0 <= k < e ==> header@[k] != ';',
        ensures
            e <= hn,
            hn == header@.len(),
            forall|k: int| 0 <= k < e ==> header@[k] != ';',
            e < hn ==> header@[e as int] == ';',
        decreases hn - e,
    {
        if header.get_char(e) == ';' {
            break;
        }
        e = e + 1;
    }
    proof {
        lemma_item_end_at(header@, e as int);
    }
    let ghost item = header@.take(e as int);
    let nn = name.unicode_len();
    if e > nn {
        let mut matched: bool = true;
        let mut k: usize = 0;
        while k < nn
            invariant_except_break
                matched,
            invariant
                k <= nn,
                nn == name@.len(),
                nn < e <= hn,
                hn == header@.len(),
                forall|j: int| 0 <= j < k ==> header@[j] == name@[j],
            ensures
                k <= nn,
                nn == name@.len(),
                nn < e <= hn,
                hn == header@.len(),
                matched ==> k == nn,
                matched ==> forall|j: int| 0 <= j < nn ==> header@[j] == name@[j],
                !matched ==> k < nn && header@[k as int] != name@[k as int],
            decreases nn - k,
        {
            if header.get_char(k) != name.get_char(k) {
                matched = false;
                break;
            }
            k = k + 1;
        }
        if matched {
            if header.get_char(nn) == '=' {
                let v = header.substring_char(nn + 1, e);
                proof {
                    assert(item.take(nn as int + 1) =~= name@.push('='));
                    assert(item.skip(nn as int + 1) =~= v@);
                }
                return Some(String::from_str(v));
            } else {
                proof {
                    assert(item.take(nn as int + 1)[nn as int] == header@[nn as int]);
                    assert(name@.push('=')[nn as int] == '=');
                    assert(item.take(nn as int + 1) != name@.push('='));
                }
                cookie_value_tail(header, name, e, hn)
            }
        } else {
            proof {
                let ghost k0 = k as int;
                assert(item.take(nn as int + 1)[k0] == header@[k0]);
                assert(name@.push('=')[k0] == name@[k0]);
                assert(item.take(nn as int + 1) != name@.push('='));
            }
            cookie_value_tail(header, name, e, hn)
        }
    } else {
        proof {
            assert(item.len() <= name@.len());
        }
        cookie_value_tail(header, name, e, hn)
    }
}

/// Continues the scan past the leading item, whose name did not
/// match.
fn cookie_value_tail(header: &str, name: &str, e: usize, hn: usize) -> (r: Option<String>)
    requires
        hn == header@.len(),
        e <= hn,
        item_end(header@) == e,
        !(header@.len() > 0 && header@[0] == ' '),
        !(header@.take(e as int).len() > name@.len() && header@.take(e as int).take(
            name@.len() as int + 1,
        ) == name@.push('=')),
    ensures
        match r {
            Some(v) => cookie_value_in(header@, name@) == Some(v@),
            None => cookie_value_in(header@, name@) is None,
        },
    decreases header@.len(), 0int,
{
    if e < hn {
        let rest = header.substring_char(e + 1, hn);
        proof {
            assert(rest@ =~= header@.skip(e as int + 1));
        }
        cookie_value(rest, name)
    } else {
        None
    }
}

} // verus!
