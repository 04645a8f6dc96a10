//! Which feed bodies `feed_rs` can parse without panicking.
//!
//! `feed_rs` reads media time values (the `time`, `start` and `end`
//! attributes of Media RSS elements, and the text of `itunes:duration`) with
//! `parse_npt`, which unwraps `u64` parses of every run of Unicode digits it
//! matches and adds them without overflow checks: a non-ASCII digit or a
//! run too long for `u64` makes it panic. A body passes this check when
//! every such value, wherever it could stand, is plain ASCII without
//! character references and holds no run of more than fifteen ASCII digits
//! (which keeps `hours * 3600` and the sums inside `u64`), and when it has no
//! NUL byte (so the markup cannot be read in UTF-16, where names are not
//! ASCII bytes).
//!
//! "Wherever it could stand" follows how `quick_xml` splits a tag: an
//! attribute name starts after white space or after the closing quote of
//! the value before it, so `time`, `start` and `end` count only there (not
//! inside `legend` or `x:end`); an element's local name is what follows its
//! last `:`, so `duration` counts after `<` or `:`. Since a start tag's name
//! may hold `<` or `/`, a closing `</x:duration>` cannot be told from such a
//! name by what precedes it; it is held to the same rule, which it meets
//! whenever another tag, or ASCII text without `&`, follows it. The text of
//! a duration runs up to the next tag; a body in which a comment, a CDATA
//! section or a processing instruction comes first is turned away, since
//! the parser joins the text across those.

use vstd::prelude::*;

verus! {

/// XML white space.
pub open spec fn is_ws(c: u8) -> bool {
    c == 32 || c == 9 || c == 10 || c == 13
}

/// A quote that can open an attribute value.
pub open spec fn is_quote(c: u8) -> bool {
    c == 34 || c == 39
}

/// An ASCII digit.
pub open spec fn is_digit(c: u8) -> bool {
    48 <= c <= 57
}

/// A byte that can stand in a checked value: printable ASCII other than
/// `&`, or tab, line feed, carriage return.
pub open spec fn safe_byte(c: u8) -> bool {
    (32 <= c <= 126 && c != 38) || c == 9 || c == 10 || c == 13
}

/// The first position at or after `p` that holds `c`, or the length.
pub open spec fn first_index(b: Seq<u8>, p: int, c: u8) -> int
    decreases b.len() - p,
{
    if p < 0 || p >= b.len() {
        b.len() as int
    } else if b[p] == c {
        p
    } else {
        first_index(b, p + 1, c)
    }
}

/// The first position at or after `p` that is not white space, or the
/// length.
pub open spec fn skip_ws(b: Seq<u8>, p: int) -> int
    decreases b.len() - p,
{
    if p < 0 || p >= b.len() {
        b.len() as int
    } else if is_ws(b[p]) {
        skip_ws(b, p + 1)
    } else {
        p
    }
}

/// `n` stands at position `i`.
pub open spec fn name_at(b: Seq<u8>, i: int, n: Seq<u8>) -> bool {
    0 <= i && i + n.len() <= b.len() && b.subrange(i, i + n.len()) == n
}

/// All bytes in `[x, y)` are ASCII digits.
pub open spec fn digits_in(b: Seq<u8>, x: int, y: int) -> bool {
    forall|u: int| x <= u < y ==> is_digit(#[trigger] b[u])
}

/// The bytes in `[s, e)` are safe, with no run of sixteen digits.
pub open spec fn safe_text(b: Seq<u8>, s: int, e: int) -> bool {
    &&& forall|t: int| s <= t < e ==> safe_byte(#[trigger] b[t])
    &&& forall|t: int| s <= t && t + 16 <= e ==> !#[trigger] digits_in(b, t, t + 16)
}

/// An attribute name can start at `i`: white space or a quote stands before it.
pub open spec fn key_can_start(b: Seq<u8>, i: int) -> bool {
    1 <= i <= b.len() && (is_ws(b[i - 1]) || is_quote(b[i - 1]))
}

/// An attribute `n = "..."` at `i`, if there is one, has a closed, safe value.
pub open spec fn attr_ok(b: Seq<u8>, i: int, n: Seq<u8>) -> bool {
    (key_can_start(b, i) && name_at(b, i, n)) ==> {
        let j = skip_ws(b, i + n.len());
        j < b.len() && b[j] == 61 ==> {
            let k = skip_ws(b, j + 1);
            k < b.len() && is_quote(b[k]) ==> {
                let e = first_index(b, k + 1, b[k]);
                e < b.len() && safe_text(b, k + 1, e)
            }
        }
    }
}

/// `time`, `start`, `end`, `duration` as bytes.
pub open spec fn time_name() -> Seq<u8> {
    seq![116u8, 105, 109, 101]
}

pub open spec fn start_name() -> Seq<u8> {
    seq![115u8, 116, 97, 114, 116]
}

pub open spec fn end_name() -> Seq<u8> {
    seq![101u8, 110, 100]
}

pub open spec fn duration_name() -> Seq<u8> {
    seq![100u8, 117, 114, 97, 116, 105, 111, 110]
}

/// A byte that ends an element name: white space, `>` or `/`.
pub open spec fn ends_name(c: u8) -> bool {
    is_ws(c) || c == 62 || c == 47
}

/// A tag whose local name is `duration` at `i`, if there is one, closes
/// before any quote, and the text after it, up to the next tag, is safe.
pub open spec fn duration_ok(b: Seq<u8>, i: int) -> bool {
    (name_at(b, i, duration_name()) && i >= 1 && (b[i - 1] == 60 || b[i - 1] == 58) && i + 8 < b.len()
        && ends_name(b[i + 8])) ==> {
        let g = first_index(b, i + 8, 62);
        &&& g < b.len()
        &&& first_index(b, i + 8, 34) >= g
        &&& first_index(b, i + 8, 39) >= g
        &&& {
            let l = first_index(b, g + 1, 60);
            &&& safe_text(b, g + 1, l)
            &&& l + 1 < b.len() ==> b[l + 1] != 33 && b[l + 1] != 63
        }
    }
}

/// Every media time value that could stand at `i` is safe.
pub open spec fn position_ok(b: Seq<u8>, i: int) -> bool {
    &&& attr_ok(b, i, time_name())
    &&& attr_ok(b, i, start_name())
    &&& attr_ok(b, i, end_name())
    &&& duration_ok(b, i)
}

/// The body has no NUL byte and every media time value in it is safe.
pub open spec fn body_is_safe(b: Seq<u8>) -> bool {
    &&& forall|i: int| 0 <= i < b.len() ==> #[trigger] b[i] != 0
    &&& forall|i: int| 0 <= i < b.len() ==> #[trigger] position_ok(b, i)
}

fn first_index_exec(b: &[u8], p: usize, c: u8) -> (r: usize)
    requires
        p <= b@.len(),
    ensures
        r as int == first_index(b@, p as int, c),
        p <= r <= b@.len(),
{
    let mut q = p;
    while q < b.len() && b[q] != c
        invariant
            p <= q <= b@.len(),
            first_index(b@, p as int, c) == first_index(b@, q as int, c),
        decreases b@.len() - q,
    {
        q = q + 1;
    }
    q
}

fn skip_ws_exec(b: &[u8], p: usize) -> (r: usize)
    requires
        p <= b@.len(),
    ensures
        r as int == skip_ws(b@, p as int),
        r <= b@.len(),
{
    let mut q = p;
    while q < b.len() && (b[q] == 32 || b[q] == 9 || b[q] == 10 || b[q] == 13)
        invariant
            p <= q <= b@.len(),
            skip_ws(b@, p as int) == skip_ws(b@, q as int),
        decreases b@.len() - q,
    {
        q = q + 1;
    }
    q
}

fn name_at_exec(b: &[u8], i: usize, n: &Vec<u8>) -> (r: bool)
    ensures
        r == name_at(b@, i as int, n@),
{
    let blen = b.len();
    if n.len() > blen || i > blen - n.len() {
        return false;
    }
    let mut k: usize = 0;
    while k < n.len()
        invariant
            blen == b@.len(),
            i + n@.len() <= blen,
            k <= n@.len(),
            forall|u: int| 0 <= u < k ==> b@[i + u] == n@[u],
        decreases n@.len() - k,
    {
        assert(i + k < b@.len());
        let idx = i + k;
        if b[idx] != n[k] {
            assert(b@.subrange(i as int, i + n@.len())[k as int] != n@[k as int]);
            return false;
        }
        k = k + 1;
    }
    assert(b@.subrange(i as int, i + n@.len()) =~= n@);
    true
}

fn safe_text_exec(b: &[u8], s: usize, e: usize) -> (r: bool)
    requires
        s <= e <= b@.len(),
    ensures
        r == safe_text(b@, s as int, e as int),
{
    let mut i = s;
    let mut run: usize = 0;
    while i < e
        invariant
            s <= i <= e <= b@.len(),
            run <= 15,
            i - run >= s,
            forall|u: int| i - run <= u < i ==> is_digit(#[trigger] b@[u]),
            i - run > s ==> !is_digit(b@[i - run - 1]),
            forall|t: int| s <= t < i ==> safe_byte(#[trigger] b@[t]),
            forall|t: int| s <= t && t + 16 <= i ==> !#[trigger] digits_in(b@, t, t + 16),
        decreases e - i,
    {
        let c = b[i];
        if !((32 <= c && c <= 126 && c != 38) || c == 9 || c == 10 || c == 13) {
            return false;
        }
        if 48 <= c && c <= 57 {
            if run == 15 {
                assert(digits_in(b@, (i - 15) as int, (i - 15) + 16));
                return false;
            }
            proof {
                let t = i - run - 1;
                assert forall|t2: int| s <= t2 && t2 + 16 <= i + 1 implies !#[trigger] digits_in(b@, t2, t2 + 16) by {
                    if t2 + 16 == i + 1 {
                        assert(i - run > s);
                        assert(!is_digit(b@[i - run - 1]));
                    }
                }
            }
            run = run + 1;
        } else {
            proof {
                assert forall|t2: int| s <= t2 && t2 + 16 <= i + 1 implies !#[trigger] digits_in(b@, t2, t2 + 16) by {
                    if t2 + 16 == i + 1 {
                        assert(!is_digit(b@[i as int]));
                    }
                }
            }
            run = 0;
        }
        i = i + 1;
    }
    true
}

fn attr_ok_exec(b: &[u8], i: usize, n: &Vec<u8>) -> (r: bool)
    requires
        i < b@.len(),
    ensures
        r == attr_ok(b@, i as int, n@),
{
    if !(i >= 1 && (b[i - 1] == 32 || b[i - 1] == 9 || b[i - 1] == 10 || b[i - 1] == 13
        || b[i - 1] == 34 || b[i - 1] == 39)) {
        return true;
    }
    if !name_at_exec(b, i, n) {
        return true;
    }
    let blen = b.len();
    assert(i + n@.len() <= blen);
    let j = skip_ws_exec(b, i + n.len());
    if !(j < b.len() && b[j] == 61) {
        return true;
    }
    let k = skip_ws_exec(b, j + 1);
    if !(k < b.len() && (b[k] == 34 || b[k] == 39)) {
        return true;
    }
    let e = first_index_exec(b, k + 1, b[k]);
    e < b.len() && safe_text_exec(b, k + 1, e)
}

fn duration_ok_exec(b: &[u8], i: usize, n: &Vec<u8>) -> (r: bool)
    requires
        i < b@.len(),
        n@ == duration_name(),
    ensures
        r == duration_ok(b@, i as int),
{
    if !(name_at_exec(b, i, n) && i >= 1 && (b[i - 1] == 60 || b[i - 1] == 58) && i + 8 < b.len()) {
        return true;
    }
    let after = b[i + 8];
    if !(after == 32 || after == 9 || after == 10 || after == 13 || after == 62 || after == 47) {
        return true;
    }
    let g = first_index_exec(b, i + 8, 62);
    if g >= b.len() {
        return false;
    }
    if first_index_exec(b, i + 8, 34) < g || first_index_exec(b, i + 8, 39) < g {
        return false;
    }
    let l = first_index_exec(b, g + 1, 60);
    if !safe_text_exec(b, g + 1, l) {
        return false;
    }
    !(l < b.len() - 1 && (b[l + 1] == 33 || b[l + 1] == 63))
}

/// Whether `feed_rs` can be handed this body: see the module's comment.
pub fn body_is_safe_exec(b: &[u8]) -> (r: bool)
    ensures
        r == body_is_safe(b@),
{
    let time = vec![116u8, 105, 109, 101];
    let start = vec![115u8, 116, 97, 114, 116];
    let end = vec![101u8, 110, 100];
    let duration = vec![100u8, 117, 114, 97, 116, 105, 111, 110];
    proof {
        assert(time@ =~= time_name());
        assert(start@ =~= start_name());
        assert(end@ =~= end_name());
        assert(duration@ =~= duration_name());
    }
    let mut i: usize = 0;
    while i < b.len()
        invariant
            i <= b@.len(),
            time@ == time_name(),
            start@ == start_name(),
            end@ == end_name(),
            duration@ == duration_name(),
            forall|u: int| 0 <= u < i ==> #[trigger] b@[u] != 0,
            forall|u: int| 0 <= u < i ==> #[trigger] position_ok(b@, u),
        decreases b@.len() - i,
    {
        if b[i] == 0 {
            return false;
        }
        if !(attr_ok_exec(b, i, &time) && attr_ok_exec(b, i, &start) && attr_ok_exec(b, i, &end)
            && duration_ok_exec(b, i, &duration)) {
            assert(!position_ok(b@, i as int));
            return false;
        }
        i = i + 1;
    }
    true
}

} // verus!
