//! Bearer-token extraction from the subprotocol negotiation header.
use vstd::prelude::*;

verus! {

/// Characters that `str::trim` removes: those with the Unicode `White_Space` property.
pub open spec fn is_blank(c: char) -> bool {
    let u = c as u32;
    u == 0x20 || (0x09 <= u && u <= 0x0d) || u == 0x85 || u == 0xa0 || u == 0x1680 || (0x2000
        <= u && u <= 0x200a) || u == 0x2028 || u == 0x2029 || u == 0x202f || u == 0x205f || u
        == 0x3000
}

/// Index of the first `,` at or after `from`, or the length when there is none.
pub open spec fn comma_index(s: Seq<char>, from: int) -> int
    decreases s.len() - from,
{
    if from < 0 || from >= s.len() {
        s.len() as int
    } else if s[from] == ',' {
        from
    } else {
        comma_index(s, from + 1)
    }
}

/// First index in `[from, to)` whose character is not blank, or `to`.
pub open spec fn skip_blank(s: Seq<char>, from: int, to: int) -> int
    decreases to - from,
{
    if from >= to {
        to
    } else if is_blank(s[from]) {
        skip_blank(s, from + 1, to)
    } else {
        from
    }
}

/// End of `[from, to)` once trailing blanks are dropped.
pub open spec fn drop_blank_end(s: Seq<char>, from: int, to: int) -> int
    decreases to - from,
{
    if to <= from {
        from
    } else if is_blank(s[to - 1]) {
        drop_blank_end(s, from, to - 1)
    } else {
        to
    }
}

/// The characters of `s[from..to]` with leading and trailing blanks removed.
pub open spec fn field(s: Seq<char>, from: int, to: int) -> Seq<char> {
    let a = skip_blank(s, from, to);
    s.subrange(a, drop_blank_end(s, a, to))
}

/// `s` equals `"bearer"` up to ASCII case.
pub open spec fn is_bearer(s: Seq<char>) -> bool {
    let lower = seq!['b', 'e', 'a', 'r', 'e', 'r'];
    let upper = seq!['B', 'E', 'A', 'R', 'E', 'R'];
    s.len() == 6 && forall|i: int| 0 <= i < 6 ==> (s[i] == lower[i] || s[i] == upper[i])
}

/// The token carried by a subprotocol header: the second field of
/// `"bearer, <token>"`, the whole (trimmed) header when it holds one field
/// that is not `bearer`, and empty otherwise.
pub open spec fn protocol_token(h: Seq<char>) -> Seq<char> {
    let c1 = comma_index(h, 0);
    if c1 < h.len() {
        if is_bearer(field(h, 0, c1)) {
            field(h, c1 + 1, comma_index(h, c1 + 1))
        } else {
            Seq::empty()
        }
    } else {
        let only = field(h, 0, h.len() as int);
        if is_bearer(only) {
            Seq::empty()
        } else {
            only
        }
    }
}

fn find_comma(h: &str, from: usize, len: usize) -> (r: usize)
    requires
        len == h@.len(),
        from <= len,
    ensures
        r == comma_index(h@, from as int),
        from <= r <= len,
{
    let mut i: usize = from;
    while i < len
        invariant
            len == h@.len(),
            from <= i <= len,
            comma_index(h@, from as int) == comma_index(h@, i as int),
        decreases len - i,
    {
        if h.get_char(i) == ',' {
            return i;
        }
        i = i + 1;
    }
    i
}

fn blank(c: char) -> (r: bool)
    ensures
        r == is_blank(c),
{
    let u = c as u32;
    u == 0x20 || (0x09 <= u && u <= 0x0d) || u == 0x85 || u == 0xa0 || u == 0x1680 || (0x2000
        <= u && u <= 0x200a) || u == 0x2028 || u == 0x2029 || u == 0x202f || u == 0x205f || u
        == 0x3000
}

fn trim_bounds(h: &str, from: usize, to: usize) -> (r: (usize, usize))
    requires
        from <= to <= h@.len(),
    ensures
        r.0 == skip_blank(h@, from as int, to as int),
        r.1 == drop_blank_end(h@, r.0 as int, to as int),
        from <= r.0 <= r.1 <= to,
{
    let mut a: usize = from;
    while a < to && blank(h.get_char(a))
        invariant
            from <= a <= to <= h@.len(),
            skip_blank(h@, from as int, to as int) == skip_blank(h@, a as int, to as int),
        decreases to - a,
    {
        a = a + 1;
    }
    let mut b: usize = to;
    while b > a && blank(h.get_char(b - 1))
        invariant
            a <= b <= to <= h@.len(),
            drop_blank_end(h@, a as int, to as int) == drop_blank_end(h@, a as int, b as int),
        decreases b,
    {
        b = b - 1;
    }
    (a, b)
}

fn bearer_at(h: &str, a: usize, b: usize) -> (r: bool)
    requires
        a <= b <= h@.len(),
    ensures
        r == is_bearer(h@.subrange(a as int, b as int)),
{
    let ghost s = h@.subrange(a as int, b as int);
    if b - a != 6 {
        return false;
    }
    let lower = "bearer";
    let upper = "BEARER";
    proof {
        reveal_strlit("bearer");
        reveal_strlit("BEARER");
        assert(lower@ =~= seq!['b', 'e', 'a', 'r', 'e', 'r']);
        assert(upper@ =~= seq!['B', 'E', 'A', 'R', 'E', 'R']);
    }
    let mut i: usize = 0;
    while i < 6
        invariant
            b - a == 6,
            a <= b <= h@.len(),
            s == h@.subrange(a as int, b as int),
            lower@ == seq!['b', 'e', 'a', 'r', 'e', 'r'],
            upper@ == seq!['B', 'E', 'A', 'R', 'E', 'R'],
            i <= 6,
            forall|k: int| 0 <= k < i ==> (s[k] == lower@[k] || s[k] == upper@[k]),
        decreases 6 - i,
    {
        let c = h.get_char(a + i);
        assert(c == s[i as int]);
        if c != lower.get_char(i) && c != upper.get_char(i) {
            return false;
        }
        i = i + 1;
    }
    true
}

/// Extracts the bearer token from a `Sec-WebSocket-Protocol` header value.
///
/// Accepts `"bearer, <token>"` and a bare `"<token>"`; any other shape gives
/// an empty string, which admission rejects.
pub fn extract_token_from_protocol(header: &str) -> (r: String)
    ensures
        r@ == protocol_token(header@),
{
    let len = header.unicode_len();
    let c1 = find_comma(header, 0, len);
    if c1 < len {
        let (a, b) = trim_bounds(header, 0, c1);
        if bearer_at(header, a, b) {
            let c2 = find_comma(header, c1 + 1, len);
            let (x, y) = trim_bounds(header, c1 + 1, c2);
            header.substring_char(x, y).to_owned()
        } else {
            String::new()
        }
    } else {
        let (a, b) = trim_bounds(header, 0, len);
        if bearer_at(header, a, b) {
            String::new()
        } else {
            header.substring_char(a, b).to_owned()
        }
    }
}

} // verus!
