//! The decisions of name resolution: which names are valid, the name that is
//! asked, the name servers to use, and which address is the fastest.
use vstd::prelude::*;
use vstd::utf8::encode_utf8;

use crate::net::IpAddress;
use crate::text::{chars_of, split_chars, split_on, texts_of};

verus! {

/// A letter, a digit or `-`.
pub open spec fn label_char(c: char) -> bool {
    ('a' <= c && c <= 'z') || ('A' <= c && c <= 'Z') || ('0' <= c && c <= '9') || c == '-'
}

/// A label of a domain name: 1 to 63 letters, digits and hyphens, neither
/// starting nor ending with a hyphen.
pub open spec fn label_ok(l: Seq<char>) -> bool {
    &&& 0 < l.len() <= 63
    &&& l[0] != '-'
    &&& l.last() != '-'
    &&& forall|i: int| 0 <= i < l.len() ==> label_char(#[trigger] l[i])
}

/// A valid domain name: at most 253 bytes, and every label between dots valid.
pub open spec fn domain_valid(s: Seq<char>) -> bool {
    &&& encode_utf8(s).len() <= 253
    &&& forall|i: int|
        0 <= i < split_on(s, seq!['.']).len() ==> label_ok(#[trigger] split_on(s, seq!['.'])[i])
}

/// The characters allowed in a label, by their code points.
proof fn lemma_label_char_code(c: char)
    ensures
        label_char(c) <==> {
            let u = c as u32;
            ||| 0x30 <= u <= 0x39
            ||| 0x41 <= u <= 0x5A
            ||| 0x61 <= u <= 0x7A
            ||| u == 0x2D
        },
{
    assert('a' as u32 == 0x61 && 'z' as u32 == 0x7A && 'A' as u32 == 0x41 && 'Z' as u32 == 0x5A);
    assert('0' as u32 == 0x30 && '9' as u32 == 0x39 && '-' as u32 == 0x2D);
}

/// A domain name is valid exactly when it is at most 253 bytes long and each
/// of its dot-separated labels is 1 to 63 characters, each an ASCII letter,
/// an ASCII digit or a hyphen, with no hyphen first or last.
pub proof fn law_domain_validity(s: Seq<char>)
    ensures
        domain_valid(s) <==> {
            &&& encode_utf8(s).len() <= 253
            &&& forall|i: int|
                0 <= i < split_on(s, seq!['.']).len() ==> {
                    let l = #[trigger] split_on(s, seq!['.'])[i];
                    &&& 1 <= l.len() <= 63
                    &&& l[0] != '-'
                    &&& l[l.len() - 1] != '-'
                    &&& forall|j: int|
                        0 <= j < l.len() ==> {
                            let u = (#[trigger] l[j]) as u32;
                            ||| 0x30 <= u <= 0x39
                            ||| 0x41 <= u <= 0x5A
                            ||| 0x61 <= u <= 0x7A
                            ||| u == 0x2D
                        }
                }
        },
{
    assert forall|c: char| #![trigger label_char(c)] label_char(c) <==> {
        let u = c as u32;
        ||| 0x30 <= u <= 0x39
        ||| 0x41 <= u <= 0x5A
        ||| 0x61 <= u <= 0x7A
        ||| u == 0x2D
    } by {
        lemma_label_char_code(c);
    }
}

fn is_label_char(c: char) -> (r: bool)
    ensures
        r == label_char(c),
{
    ('a' <= c && c <= 'z') || ('A' <= c && c <= 'Z') || ('0' <= c && c <= '9') || c == '-'
}

fn is_label_ok(l: &[char]) -> (r: bool)
    ensures
        r == label_ok(l@),
{
    if l.len() == 0 || l.len() > 63 {
        return false;
    }
    if l[0] == '-' || l[l.len() - 1] == '-' {
        return false;
    }
    let mut i: usize = 0;
    while i < l.len()
        invariant
            i <= l@.len(),
            forall|j: int| 0 <= j < i ==> label_char(#[trigger] l@[j]),
        decreases l@.len() - i,
    {
        if !is_label_char(l[i]) {
            return false;
        }
        i = i + 1;
    }
    true
}

/// Whether `domain` is a valid domain name.
pub fn is_valid_domain(domain: &str) -> (r: bool)
    ensures
        r == domain_valid(domain@),
{
    if domain.as_bytes().len() > 253 {
        return false;
    }
    let chars = chars_of(domain);
    let dot = ['.'];
    assert(dot@ =~= seq!['.']);
    let labels = split_chars(chars.as_slice(), dot.as_slice());
    let ghost ls = texts_of(labels@);
    let mut i: usize = 0;
    while i < labels.len()
        invariant
            i <= labels@.len(),
            ls == texts_of(labels@),
            ls == split_on(domain@, seq!['.']),
            encode_utf8(domain@).len() <= 253,
            forall|j: int| 0 <= j < i ==> label_ok(#[trigger] ls[j]),
        decreases labels@.len() - i,
    {
        if !is_label_ok(labels[i].as_slice()) {
            assert(!label_ok(ls[i as int]));
            return false;
        }
        i = i + 1;
    }
    true
}

/// The name to ask the resolver: a valid name, with a trailing dot added when
/// it has none; `None` for an invalid name.
pub fn query_name(domain: &str) -> (r: Option<String>)
    ensures
        !domain_valid(domain@) ==> r is None,
        domain_valid(domain@) ==> (r matches Some(q) && q@ == (if domain@.len() > 0
            && domain@.last() == '.' {
            domain@
        } else {
            domain@.push('.')
        })),
{
    if !is_valid_domain(domain) {
        return None;
    }
    let chars = chars_of(domain);
    if chars.len() > 0 && chars[chars.len() - 1] == '.' {
        Some(domain.to_string())
    } else {
        let mut q = domain.to_string();
        q.append(".");
        proof {
            reveal_strlit(".");
            assert("."@ =~= seq!['.']);
        }
        assert(q@ =~= domain@.push('.'));
        Some(q)
    }
}

/// A name server given without a port gets port 53.
pub open spec fn name_server_text_spec(s: Seq<char>) -> Seq<char> {
    if s.contains(':') {
        s
    } else {
        s + seq![':', '5', '3']
    }
}

/// The address text of a configured name server: as given when it holds a
/// `:`, else with port 53 appended.
pub fn name_server_text(item: &str) -> (r: String)
    ensures
        r@ == name_server_text_spec(item@),
{
    let chars = chars_of(item);
    let mut i: usize = 0;
    while i < chars.len()
        invariant
            i <= chars@.len(),
            chars@ == item@,
            forall|j: int| 0 <= j < i ==> chars@[j] != ':',
        decreases chars@.len() - i,
    {
        if chars[i] == ':' {
            assert(chars@[i as int] == ':');
            return item.to_string();
        }
        i = i + 1;
    }
    assert(!item@.contains(':'));
    let mut s = item.to_string();
    s.append(":53");
    proof {
        reveal_strlit(":53");
        assert(":53"@ =~= seq![':', '5', '3']);
    }
    s
}

/// How many of the configured name servers are used, given for each whether
/// its address text reads as an address: those before the first that does
/// not. When none is used the system's hosts file and servers stand in.
pub fn usable_server_count(parsed: &[bool]) -> (r: usize)
    ensures
        r <= parsed@.len(),
        forall|j: int| 0 <= j < r ==> parsed@[j],
        r < parsed@.len() ==> !parsed@[r as int],
{
    let mut i: usize = 0;
    while i < parsed.len() && parsed[i]
        invariant
            i <= parsed@.len(),
            forall|j: int| 0 <= j < i ==> parsed@[j],
        decreases parsed@.len() - i,
    {
        i = i + 1;
    }
    i
}

/// An address whose time is the least, the first such in the list.
pub open spec fn is_first_fastest(c: Seq<(u128, IpAddress)>, k: int) -> bool {
    &&& 0 <= k < c.len()
    &&& forall|j: int| 0 <= j < c.len() ==> c[k].0 <= (#[trigger] c[j]).0
    &&& forall|j: int| 0 <= j < k ==> c[k].0 < (#[trigger] c[j]).0
}

/// Of addresses with their times, the address with the least time; the first
/// one among equals. `None` when there is none.
pub fn pick_fastest(candidates: &[(u128, IpAddress)]) -> (r: Option<IpAddress>)
    ensures
        candidates@.len() == 0 <==> r is None,
        r matches Some(ip) ==> exists|k: int| is_first_fastest(candidates@, k) && candidates@[k].1 == ip,
{
    if candidates.len() == 0 {
        return None;
    }
    let mut best: usize = 0;
    let mut i: usize = 1;
    while i < candidates.len()
        invariant
            1 <= i <= candidates@.len(),
            best < i,
            forall|j: int| 0 <= j < i ==> candidates@[best as int].0 <= (#[trigger] candidates@[j]).0,
            forall|j: int| 0 <= j < best ==> candidates@[best as int].0 < (#[trigger] candidates@[j]).0,
        decreases candidates@.len() - i,
    {
        if candidates[i].0 < candidates[best].0 {
            best = i;
        }
        i = i + 1;
    }
    assert(is_first_fastest(candidates@, best as int));
    Some(candidates[best].1)
}

/// The sum of round-trip times.
pub open spec fn total(rtts: Seq<u128>) -> int
    decreases rtts.len(),
{
    if rtts.len() == 0 {
        0
    } else {
        total(rtts.drop_last()) + rtts.last()
    }
}

proof fn lemma_total_prefix(s: Seq<u128>, k: int)
    requires
        0 <= k <= s.len(),
    ensures
        total(s.take(k)) <= total(s),
    decreases s.len() - k,
{
    if k < s.len() {
        lemma_total_prefix(s, k + 1);
        assert(s.take(k + 1).drop_last() =~= s.take(k));
    } else {
        assert(s.take(k) =~= s);
    }
}

/// The mean of round-trip times, rounded down. The sum must fit in 128 bits.
pub fn average(rtts: &[u128]) -> (r: u128)
    requires
        rtts@.len() > 0,
        total(rtts@) <= u128::MAX,
    ensures
        r == total(rtts@) / (rtts@.len() as int),
{
    let mut sum: u128 = 0;
    let mut i: usize = 0;
    assert forall|k: int| 0 <= k <= rtts@.len() implies total(#[trigger] rtts@.take(k)) <= total(rtts@) by {
        lemma_total_prefix(rtts@, k);
    }
    while i < rtts.len()
        invariant
            i <= rtts@.len(),
            sum == total(rtts@.take(i as int)),
            total(rtts@) <= u128::MAX,
            forall|k: int| 0 <= k <= rtts@.len() ==> total(#[trigger] rtts@.take(k)) <= total(rtts@),
        decreases rtts@.len() - i,
    {
        assert(rtts@.take(i + 1).drop_last() =~= rtts@.take(i as int));
        assert(total(rtts@.take(i + 1)) <= total(rtts@));
        sum = sum + rtts[i];
        i = i + 1;
    }
    assert(rtts@.take(rtts@.len() as int) =~= rtts@);
    sum / (rtts.len() as u128)
}

} // verus!
