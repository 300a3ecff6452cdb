use vstd::prelude::*;

use crate::net::IpAddress;
use crate::net::spec_is_loopback;
use crate::text::LINE_FEED;
use crate::text::bytes_eq;
use crate::text::copy_bytes;
use crate::text::find_byte;
use crate::text::lemma_find_byte_props;
use crate::text::spec_find_byte;

verus! {

/// The bytes that wrap the address column of the neighbor table's text
/// output.
pub const PAREN_OPEN: u8 = 40;

pub const PAREN_CLOSE: u8 = 41;

/// What can go wrong reading the neighbor table's output.
#[derive(Debug)]
pub enum ArpError {
    /// No line of the output names this address; the payload is the
    /// parenthesized pattern that was searched for.
    NotFound(Vec<u8>),
}

/// The bytes that count as column separators in the table's output.
pub open spec fn spec_is_ws(b: u8) -> bool {
    b == 32 || b == 9 || b == 13
}

fn is_ws(b: u8) -> (r: bool)
    ensures
        r == spec_is_ws(b),
{
    b == 32 || b == 9 || b == 13
}

/// The first position at or after `i` where a separator stands, or the
/// end of the line.
pub open spec fn spec_token_end(s: Seq<u8>, i: int) -> int
    decreases s.len() - i,
{
    if i < 0 || i >= s.len() {
        s.len() as int
    } else if spec_is_ws(s[i]) {
        i
    } else {
        spec_token_end(s, i + 1)
    }
}

proof fn lemma_token_end_props(s: Seq<u8>, i: int)
    requires
        0 <= i <= s.len(),
    ensures
        i <= spec_token_end(s, i) <= s.len(),
        spec_token_end(s, i) < s.len() ==> spec_is_ws(s[spec_token_end(s, i)]),
        forall|j: int| i <= j < spec_token_end(s, i) ==> !spec_is_ws(s[j]),
        i < s.len() && !spec_is_ws(s[i]) ==> spec_token_end(s, i) > i,
    decreases s.len() - i,
{
    if i < s.len() && !spec_is_ws(s[i]) {
        lemma_token_end_props(s, i + 1);
    }
}

/// The columns of one line, from position `i` on: separators split, runs
/// of them count as one, and none leads or trails.
pub open spec fn spec_tokens_from(s: Seq<u8>, i: int) -> Seq<Seq<u8>>
    decreases s.len() - i,
    via spec_tokens_from_dec
{
    if i < 0 || i >= s.len() {
        Seq::empty()
    } else if spec_is_ws(s[i]) {
        spec_tokens_from(s, i + 1)
    } else {
        seq![s.subrange(i, spec_token_end(s, i))] + spec_tokens_from(s, spec_token_end(s, i))
    }
}

#[via_fn]
proof fn spec_tokens_from_dec(s: Seq<u8>, i: int) {
    if 0 <= i < s.len() && !spec_is_ws(s[i]) {
        lemma_token_end_props(s, i);
    }
}

/// The columns of one line.
pub open spec fn spec_tokens(s: Seq<u8>) -> Seq<Seq<u8>> {
    spec_tokens_from(s, 0)
}

fn token_end(s: &[u8], i: usize) -> (r: usize)
    requires
        i <= s@.len(),
    ensures
        r == spec_token_end(s@, i as int),
{
    let mut j: usize = i;
    while j < s.len()
        invariant
            i <= j <= s@.len(),
            spec_token_end(s@, i as int) == spec_token_end(s@, j as int),
        decreases s@.len() - j,
    {
        if is_ws(s[j]) {
            return j;
        }
        j += 1;
    }
    j
}

/// Splits one line of output into its columns.
fn tokens(line: &[u8]) -> (r: Vec<Vec<u8>>)
    ensures
        r.deep_view() == spec_tokens(line@),
{
    let mut r: Vec<Vec<u8>> = Vec::new();
    let mut i: usize = 0;
    while i < line.len()
        invariant
            i <= line@.len(),
            spec_tokens(line@) == r.deep_view() + spec_tokens_from(line@, i as int),
        decreases line@.len() - i,
    {
        if is_ws(line[i]) {
            i += 1;
        } else {
            let e = token_end(line, i);
            proof {
                lemma_token_end_props(line@, i as int);
            }
            let tok = copy_bytes(&line[i..e]);
            let ghost prev = r.deep_view();
            r.push(tok);
            proof {
                assert(r.deep_view() =~~= prev.push(line@.subrange(i as int, e as int)));
                assert(r.deep_view() + spec_tokens_from(line@, e as int) =~= prev + (seq![
                    line@.subrange(i as int, e as int),
                ] + spec_tokens_from(line@, e as int)));
            }
            i = e;
        }
    }
    proof {
        assert(r.deep_view() + Seq::<Seq<u8>>::empty() =~= r.deep_view());
    }
    r
}

/// What one line answers for a parenthesized address pattern: the first
/// and fourth columns — hostname and hardware address — of a line whose
/// second column is exactly the pattern and which has more than four
/// columns.
pub open spec fn spec_line_identity(line: Seq<u8>, pattern: Seq<u8>) -> Option<(Seq<u8>, Seq<u8>)> {
    let t = spec_tokens(line);
    if t.len() > 4 && t[1] == pattern {
        Some((t[0], t[3]))
    } else {
        None
    }
}

/// What the whole output answers: the first line that matches, if any.
pub open spec fn spec_output_identity(s: Seq<u8>, pattern: Seq<u8>) -> Option<(Seq<u8>, Seq<u8>)>
    decreases s.len(),
{
    if s.len() == 0 {
        None
    } else {
        let nl = spec_find_byte(s, LINE_FEED, 0);
        if 0 <= nl < s.len() {
            match spec_line_identity(s.subrange(0, nl), pattern) {
                Some(x) => Some(x),
                None => spec_output_identity(s.subrange(nl + 1, s.len() as int), pattern),
            }
        } else {
            spec_line_identity(s, pattern)
        }
    }
}

/// The address wrapped in parentheses, as the table prints it.
pub open spec fn spec_parenthesized(ip_text: Seq<u8>) -> Seq<u8> {
    seq![PAREN_OPEN] + ip_text + seq![PAREN_CLOSE]
}

fn parenthesize(ip_text: &[u8]) -> (r: Vec<u8>)
    ensures
        r@ == spec_parenthesized(ip_text@),
{
    let mut r: Vec<u8> = Vec::new();
    r.push(PAREN_OPEN);
    let mut i: usize = 0;
    while i < ip_text.len()
        invariant
            i <= ip_text@.len(),
            r@ =~= seq![PAREN_OPEN] + ip_text@.subrange(0, i as int),
        decreases ip_text@.len() - i,
    {
        r.push(ip_text[i]);
        proof {
            assert(r@ =~= seq![PAREN_OPEN] + ip_text@.subrange(0, i + 1 as int));
        }
        i += 1;
    }
    r.push(PAREN_CLOSE);
    proof {
        assert(ip_text@.subrange(0, ip_text@.len() as int) =~= ip_text@);
        assert(r@ =~= spec_parenthesized(ip_text@));
    }
    r
}

/// Reads the neighbor table's text output for the line that names the
/// given address — printed there in parentheses — and returns that
/// line's hostname and hardware address columns; the first matching line
/// answers.
pub fn lookup_mac_in_output(output: &[u8], ip_text: &[u8]) -> (r: Result<
    (Vec<u8>, Vec<u8>),
    ArpError,
>)
    ensures
        match r {
            Ok(hm) => spec_output_identity(output@, spec_parenthesized(ip_text@)) == Some(
                (hm.0@, hm.1@),
            ),
            Err(ArpError::NotFound(p)) => p@ == spec_parenthesized(ip_text@)
                && spec_output_identity(output@, spec_parenthesized(ip_text@)) is None,
        },
{
    let pattern = parenthesize(ip_text);
    let mut rest: &[u8] = output;
    while rest.len() > 0
        invariant
            pattern@ == spec_parenthesized(ip_text@),
            spec_output_identity(output@, pattern@) == spec_output_identity(rest@, pattern@),
        decreases rest@.len(),
    {
        let nl = find_byte(rest, LINE_FEED, 0);
        proof {
            lemma_find_byte_props(rest@, LINE_FEED, 0);
        }
        let line: &[u8] = if nl == rest.len() {
            rest
        } else {
            &rest[0..nl]
        };
        proof {
            if nl == rest@.len() {
                assert(line@ =~= rest@);
            }
        }
        let t = tokens(line);
        if t.len() > 4 && bytes_eq(t[1].as_slice(), pattern.as_slice()) {
            proof {
                assert(t.deep_view()[1] == t@[1]@);
                assert(t.deep_view()[0] == t@[0]@);
                assert(t.deep_view()[3] == t@[3]@);
            }
            let host = copy_bytes(t[0].as_slice());
            let mac = copy_bytes(t[3].as_slice());
            return Ok((host, mac));
        }
        proof {
            assert(t.deep_view()[1] == t@[1]@ || t.deep_view().len() <= 4);
            assert(spec_line_identity(line@, pattern@) is None) by {
                if t.deep_view().len() > 4 {
                    assert(t.deep_view()[1] == t@[1]@);
                }
            }
        }
        if nl == rest.len() {
            return Err(ArpError::NotFound(pattern));
        }
        rest = &rest[nl + 1..rest.len()];
    }
    Err(ArpError::NotFound(pattern))
}

/// The sentinel identity of the local host itself: the loopback address
/// never goes through the neighbor table.
pub fn loopback_identity(addr: &IpAddress) -> (r: Option<(String, String)>)
    ensures
        match r {
            Some(hm) => spec_is_loopback(*addr) && hm.0@ == "localhost"@ && hm.1@
                == "00:00:00:00:00:00"@,
            None => !spec_is_loopback(*addr),
        },
{
    if addr.is_loopback() {
        Some((String::from_str("localhost"), String::from_str("00:00:00:00:00:00")))
    } else {
        None
    }
}

} // verus!
