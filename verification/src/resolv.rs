//! Choice of the resolver from the contents of a `resolv.conf` file.

use crate::dns::DNS_PORT;
use crate::net::{IpAddress, SocketAddress};
use vstd::prelude::*;
use vstd::slice::{slice_subrange, slice_to_vec};

verus! {

/// ASCII white space: space, tab, line feed, vertical tab, form feed,
/// carriage return.
pub open spec fn is_space(b: u8) -> bool {
    b == 0x20 || (0x09 <= b && b <= 0x0d)
}

/// The first place at or after `from` that holds no white space, or the end.
pub open spec fn skip_spaces(s: Seq<u8>, from: int) -> int
    decreases s.len() - from,
{
    if from < 0 || from >= s.len() || !is_space(s[from]) {
        from
    } else {
        skip_spaces(s, from + 1)
    }
}

/// The first place at or after `from` that holds white space, or the end.
pub open spec fn skip_word(s: Seq<u8>, from: int) -> int
    decreases s.len() - from,
{
    if from < 0 || from >= s.len() || is_space(s[from]) {
        from
    } else {
        skip_word(s, from + 1)
    }
}

/// The first place at or after `from` that holds a line feed, or the end.
pub open spec fn line_end(s: Seq<u8>, from: int) -> int
    decreases s.len() - from,
{
    if from < 0 || from >= s.len() || s[from] == 0x0a {
        from
    } else {
        line_end(s, from + 1)
    }
}

/// The bytes of the word `nameserver`.
pub open spec fn keyword() -> Seq<u8> {
    seq![0x6eu8, 0x61u8, 0x6du8, 0x65u8, 0x73u8, 0x65u8, 0x72u8, 0x76u8, 0x65u8, 0x72u8]
}

/// Whether `s` holds `prefix` at place `at`.
pub open spec fn holds_at(s: Seq<u8>, at: int, prefix: Seq<u8>) -> bool {
    0 <= at && at + prefix.len() <= s.len() && s.subrange(at, at + prefix.len()) == prefix
}

/// The value that a line names as a resolver: the second word of a line
/// whose first word starts with `nameserver`, white space around and
/// between the words ignored.
pub open spec fn line_candidate(line: Seq<u8>) -> Option<Seq<u8>> {
    let start = skip_spaces(line, 0);
    if !holds_at(line, start, keyword()) {
        None
    } else {
        let value_start = skip_spaces(line, skip_word(line, start));
        let value_end = skip_word(line, value_start);
        if value_start < value_end {
            Some(line.subrange(value_start, value_end))
        } else {
            None
        }
    }
}

/// The values named as resolvers by the lines that start at or after
/// `from`, in order.
pub open spec fn candidates_from(content: Seq<u8>, from: int) -> Seq<Seq<u8>>
    decreases content.len() - from,
{
    let end = line_end(content, from);
    if from < 0 || from >= content.len() || end < from {
        Seq::empty()
    } else {
        let rest = if end < content.len() {
            candidates_from(content, end + 1)
        } else {
            Seq::empty()
        };
        match line_candidate(content.subrange(from, end)) {
            Some(value) => seq![value] + rest,
            None => rest,
        }
    }
}

/// The first address of the list, if it holds one.
pub open spec fn first_parsed(parsed: Seq<Option<IpAddress>>) -> Option<IpAddress>
    decreases parsed.len(),
{
    if parsed.len() == 0 {
        None
    } else if parsed[0] is Some {
        parsed[0]
    } else {
        first_parsed(parsed.skip(1))
    }
}

/// The resolver used when the configuration names none: `8.8.8.8:53`.
pub open spec fn fallback_resolver() -> SocketAddress {
    SocketAddress { ip: IpAddress::V4(8, 8, 8, 8), port: DNS_PORT }
}

/// The resolver to use, given for each value that the configuration names,
/// in order, the address it parses to, if it parses: the first address, on
/// the DNS port; the fallback if there is none.
pub open spec fn system_resolver(parsed: Seq<Option<IpAddress>>) -> SocketAddress {
    match first_parsed(parsed) {
        Some(ip) => SocketAddress { ip, port: DNS_PORT },
        None => fallback_resolver(),
    }
}

fn is_space_byte(b: u8) -> (r: bool)
    ensures
        r == is_space(b),
{
    b == 0x20 || (0x09 <= b && b <= 0x0d)
}

fn find_non_space(s: &[u8], from: usize) -> (r: usize)
    requires
        from <= s.len(),
    ensures
        r == skip_spaces(s@, from as int),
        from <= r <= s.len(),
{
    let mut i = from;
    while i < s.len() && is_space_byte(s[i])
        invariant
            from <= i <= s.len(),
            skip_spaces(s@, from as int) == skip_spaces(s@, i as int),
        decreases s.len() - i,
    {
        i += 1;
    }
    i
}

fn find_space(s: &[u8], from: usize) -> (r: usize)
    requires
        from <= s.len(),
    ensures
        r == skip_word(s@, from as int),
        from <= r <= s.len(),
{
    let mut i = from;
    while i < s.len() && !is_space_byte(s[i])
        invariant
            from <= i <= s.len(),
            skip_word(s@, from as int) == skip_word(s@, i as int),
        decreases s.len() - i,
    {
        i += 1;
    }
    i
}

fn find_line_end(s: &[u8], from: usize) -> (r: usize)
    requires
        from <= s.len(),
    ensures
        r == line_end(s@, from as int),
        from <= r <= s.len(),
{
    let mut i = from;
    while i < s.len() && s[i] != 0x0a
        invariant
            from <= i <= s.len(),
            line_end(s@, from as int) == line_end(s@, i as int),
        decreases s.len() - i,
    {
        i += 1;
    }
    i
}

fn has_keyword(s: &[u8], at: usize) -> (r: bool)
    requires
        at <= s.len(),
    ensures
        r == holds_at(s@, at as int, keyword()),
{
    let word: [u8; 10] = [0x6e, 0x61, 0x6d, 0x65, 0x73, 0x65, 0x72, 0x76, 0x65, 0x72];
    if s.len() - at < 10 {
        return false;
    }
    let mut k: usize = 0;
    while k < 10
        invariant
            k <= 10,
            at + 10 <= s.len(),
            word@ == keyword(),
            forall|j: int| 0 <= j < k ==> s@[at + j] == word@[j],
        decreases 10 - k,
    {
        if s[at + k] != word[k] {
            return false;
        }
        k += 1;
    }
    assert(s@.subrange(at as int, at + 10) =~= keyword());
    true
}

/// The value that `line` names as a resolver, if it names one.
pub fn resolver_value(line: &[u8]) -> (r: Option<Vec<u8>>)
    ensures
        match r {
            Some(value) => line_candidate(line@) == Some(value@),
            None => line_candidate(line@) is None,
        },
{
    let start = find_non_space(line, 0);
    if !has_keyword(line, start) {
        return None;
    }
    let word_end = find_space(line, start);
    let value_start = find_non_space(line, word_end);
    let value_end = find_space(line, value_start);
    if value_start < value_end {
        Some(slice_to_vec(slice_subrange(line, value_start, value_end)))
    } else {
        None
    }
}

/// The values of a list of byte strings, in order.
pub open spec fn byte_views(values: Seq<Vec<u8>>) -> Seq<Seq<u8>> {
    values.map_values(|v: Vec<u8>| v@)
}

/// The values that a `resolv.conf` file names as resolvers, in the order
/// of its lines. Whether a value is an address is for the caller to find
/// out.
pub fn nameserver_candidates(content: &[u8]) -> (r: Vec<Vec<u8>>)
    ensures
        byte_views(r@) == candidates_from(content@, 0),
{
    let mut found: Vec<Vec<u8>> = Vec::new();
    let mut from: usize = 0;
    while from < content.len()
        invariant
            from <= content.len(),
            candidates_from(content@, 0) == byte_views(found@) + candidates_from(
                content@,
                from as int,
            ),
        decreases content.len() - from,
    {
        let end = find_line_end(content, from);
        match resolver_value(slice_subrange(content, from, end)) {
            Some(value) => {
                found.push(value);
            },
            None => {},
        }
        if end < content.len() {
            from = end + 1;
        } else {
            from = end;
        }
    }
    found
}

/// Picks the resolver, given for each value that the configuration names,
/// in order, the address that it parses to, if it does.
pub fn get_system_resolver(parsed: &Vec<Option<IpAddress>>) -> (r: SocketAddress)
    ensures
        r == system_resolver(parsed@),
{
    let mut i: usize = 0;
    assert(parsed@.skip(0) =~= parsed@);
    while i < parsed.len()
        invariant
            i <= parsed.len(),
            first_parsed(parsed@) == first_parsed(parsed@.skip(i as int)),
        decreases parsed.len() - i,
    {
        let ghost rest = parsed@.skip(i as int);
        match parsed[i] {
            Some(ip) => {
                return SocketAddress { ip, port: DNS_PORT };
            },
            None => {
                assert(rest.skip(1) =~= parsed@.skip(i + 1));
            },
        }
        i += 1;
    }
    SocketAddress { ip: IpAddress::V4(8, 8, 8, 8), port: DNS_PORT }
}

} // verus!
