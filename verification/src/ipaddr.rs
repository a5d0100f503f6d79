//! Dotted-quad IPv4 address validation.
//!
//! A device's transport coordinate must be a parseable address before the
//! registry accepts it.  The grammar accepted here is the usual strict one:
//! four decimal octets, each between 0 and 255 with no leading zeros,
//! separated by single dots.

use vstd::prelude::*;

verus! {

pub open spec fn is_digit(c: char) -> bool {
    '0' <= c && c <= '9'
}

pub open spec fn digit_val(c: char) -> int {
    (c as u32) - ('0' as u32)
}

pub open spec fn all_digits(s: Seq<char>) -> bool {
    forall|i: int| 0 <= i < s.len() ==> is_digit(#[trigger] s[i])
}

/// The numeric value of a digit string, most significant digit first.
pub open spec fn digits_val(s: Seq<char>) -> int
    decreases s.len(),
{
    if s.len() == 0 {
        0
    } else {
        digits_val(s.drop_last()) * 10 + digit_val(s.last())
    }
}

/// One decimal octet: one to three digits, no leading zero, value at most 255.
pub open spec fn is_dec_octet(s: Seq<char>) -> bool {
    &&& 1 <= s.len() <= 3
    &&& all_digits(s)
    &&& (s.len() > 1 ==> s[0] != '0')
    &&& digits_val(s) <= 255
}

/// A dotted-quad IPv4 address: four octets separated by dots.  Because an
/// octet consists of digits only, the three separating dots are the only
/// dots in the string.
pub open spec fn is_ipv4_addr(s: Seq<char>) -> bool {
    exists|i: int, j: int, k: int|
        #![trigger s[i], s[j], s[k]]
        {
            &&& 0 < i < j < k < s.len()
            &&& s[i] == '.'
            &&& s[j] == '.'
            &&& s[k] == '.'
            &&& is_dec_octet(s.subrange(0, i))
            &&& is_dec_octet(s.subrange(i + 1, j))
            &&& is_dec_octet(s.subrange(j + 1, k))
            &&& is_dec_octet(s.subrange(k + 1, s.len() as int))
        }
}

/// Checks that `s[from..to]` is a decimal octet.
fn check_octet(s: &str, from: usize, to: usize) -> (r: bool)
    requires
        from <= to <= s@.len(),
    ensures
        r == is_dec_octet(s@.subrange(from as int, to as int)),
{
    let ghost seg = s@.subrange(from as int, to as int);
    let len = to - from;
    if len < 1 || len > 3 {
        return false;
    }
    let mut i: usize = 0;
    let mut v: u32 = 0;
    while i < len
        invariant
            from <= to <= s@.len(),
            len == to - from,
            seg == s@.subrange(from as int, to as int),
            0 <= i <= len <= 3,
            all_digits(seg.subrange(0, i as int)),
            v == digits_val(seg.subrange(0, i as int)),
            i == 0 ==> v == 0,
            i == 1 ==> v <= 9,
            i == 2 ==> v <= 99,
            i == 3 ==> v <= 999,
        decreases len - i,
    {
        let c = s.get_char(from + i);
        assert(c == seg[i as int]);
        if c < '0' || c > '9' {
            assert(!is_digit(seg[i as int]));
            return false;
        }
        let d: u32 = (c as u32) - 48;
        proof {
            assert(seg.subrange(0, i + 1).drop_last() =~= seg.subrange(0, i as int));
            assert(seg.subrange(0, i + 1).last() == seg[i as int]);
            assert(all_digits(seg.subrange(0, i + 1)));
        }
        v = v * 10 + d;
        i = i + 1;
    }
    proof {
        assert(seg.subrange(0, len as int) =~= seg);
    }
    if len > 1 {
        let c0 = s.get_char(from);
        assert(c0 == seg[0]);
        if c0 == '0' {
            return false;
        }
    }
    v <= 255
}

/// Validates a dotted-quad IPv4 address.
pub fn is_valid_ipv4(s: &str) -> (r: bool)
    ensures
        r == is_ipv4_addr(s@),
{
    let n = s.unicode_len();
    let mut dots: Vec<usize> = Vec::new();
    let mut i: usize = 0;
    while i < n
        invariant
            n == s@.len(),
            0 <= i <= n,
            forall|a: int, b: int| 0 <= a < b < dots@.len() ==> dots@[a] < dots@[b],
            forall|a: int| 0 <= a < dots@.len() ==> 0 <= #[trigger] dots@[a] < i,
            forall|p: int|
                0 <= p < i ==> (s@[p] == '.' <==> exists|a: int|
                    0 <= a < dots@.len() && #[trigger] dots@[a] == p),
        decreases n - i,
    {
        let c = s.get_char(i);
        let ghost prior = dots@;
        if c == '.' {
            dots.push(i);
        }
        proof {
            assert forall|p: int|
                0 <= p < i + 1 implies (s@[p] == '.' <==> exists|a: int|
                    0 <= a < dots@.len() && #[trigger] dots@[a] == p) by {
                if p == i as int {
                    if s@[p] == '.' {
                        assert(dots@[dots@.len() - 1] == p);
                    } else {
                        assert(dots@ == prior);
                        assert forall|a: int| 0 <= a < dots@.len() implies #[trigger] dots@[a]
                            != p by {}
                    }
                } else {
                    if s@[p] == '.' {
                        let a = choose|a: int| 0 <= a < prior.len() && #[trigger] prior[a] == p;
                        assert(dots@[a] == p);
                    } else {
                        assert forall|a: int| 0 <= a < dots@.len() implies #[trigger] dots@[a]
                            != p by {
                            if a < prior.len() {
                                assert(prior[a] == dots@[a]);
                            } else {
                                assert(dots@[a] == i as int);
                            }
                        }
                    }
                }
            }
        }
        i = i + 1;
    }
    if dots.len() != 3 {
        proof {
            if is_ipv4_addr(s@) {
                let (wi, wj, wk): (int, int, int) = choose|wi: int, wj: int, wk: int|
                    #![trigger s@[wi], s@[wj], s@[wk]]
                    {
                        &&& 0 < wi < wj < wk < s@.len()
                        &&& s@[wi] == '.'
                        &&& s@[wj] == '.'
                        &&& s@[wk] == '.'
                        &&& is_dec_octet(s@.subrange(0, wi))
                        &&& is_dec_octet(s@.subrange(wi + 1, wj))
                        &&& is_dec_octet(s@.subrange(wj + 1, wk))
                        &&& is_dec_octet(s@.subrange(wk + 1, s@.len() as int))
                    };
                // every position other than the witness dots holds a digit
                assert forall|p: int| 0 <= p < s@.len() && p != wi && p != wj && p != wk implies s@[p]
                    != '.' by {
                    if p < wi {
                        assert(s@[p] == s@.subrange(0, wi)[p]);
                        assert(is_digit(s@.subrange(0, wi)[p]));
                    } else if p < wj {
                        assert(s@[p] == s@.subrange(wi + 1, wj)[p - (wi + 1)]);
                        assert(is_digit(s@.subrange(wi + 1, wj)[p - (wi + 1)]));
                    } else if p < wk {
                        assert(s@[p] == s@.subrange(wj + 1, wk)[p - (wj + 1)]);
                        assert(is_digit(s@.subrange(wj + 1, wk)[p - (wj + 1)]));
                    } else {
                        assert(s@[p] == s@.subrange(wk + 1, s@.len() as int)[p - (wk + 1)]);
                        assert(is_digit(s@.subrange(wk + 1, s@.len() as int)[p - (wk + 1)]));
                    }
                }
                // so the collected dots are exactly the three witnesses
                assert(exists|a: int| 0 <= a < dots@.len() && #[trigger] dots@[a] == wi);
                assert(exists|a: int| 0 <= a < dots@.len() && #[trigger] dots@[a] == wj);
                assert(exists|a: int| 0 <= a < dots@.len() && #[trigger] dots@[a] == wk);
                assert forall|a: int| 0 <= a < dots@.len() implies dots@[a] == wi || dots@[a] == wj
                    || dots@[a] == wk by {
                    assert(s@[dots@[a] as int] == '.');
                }
                if dots@.len() >= 4 {
                    assert(dots@[0] < dots@[1] < dots@[2] < dots@[3]);
                    assert(false);
                }
                let ai = choose|a: int| 0 <= a < dots@.len() && #[trigger] dots@[a] == wi;
                let aj = choose|a: int| 0 <= a < dots@.len() && #[trigger] dots@[a] == wj;
                let ak = choose|a: int| 0 <= a < dots@.len() && #[trigger] dots@[a] == wk;
                assert(ai != aj && aj != ak && ai != ak);
                assert(dots@.len() == 3);
            }
        }
        return false;
    }
    let di = dots[0];
    let dj = dots[1];
    let dk = dots[2];
    proof {
        assert(dots@[0] < dots@[1] < dots@[2]);
        assert(s@[di as int] == '.');
        assert(s@[dj as int] == '.');
        assert(s@[dk as int] == '.');
    }
    if di == 0 {
        proof {
            if is_ipv4_addr(s@) {
                lemma_witness_is_dots(s@, dots@);
            }
        }
        return false;
    }
    let ok = check_octet(s, 0, di) && check_octet(s, di + 1, dj) && check_octet(s, dj + 1, dk)
        && check_octet(s, dk + 1, n);
    proof {
        if ok {
            assert(is_ipv4_addr(s@)) by {
                assert({
                    &&& 0 < di < dj < dk < s@.len()
                    &&& s@[di as int] == '.'
                    &&& s@[dj as int] == '.'
                    &&& s@[dk as int] == '.'
                    &&& is_dec_octet(s@.subrange(0, di as int))
                    &&& is_dec_octet(s@.subrange(di as int + 1, dj as int))
                    &&& is_dec_octet(s@.subrange(dj as int + 1, dk as int))
                    &&& is_dec_octet(s@.subrange(dk as int + 1, s@.len() as int))
                });
            }
        } else {
            if is_ipv4_addr(s@) {
                lemma_witness_is_dots(s@, dots@);
            }
        }
    }
    ok
}

/// When a string is a valid address and `dots` lists exactly its dot
/// positions in increasing order, the witness octet boundaries coincide
/// with those positions.
proof fn lemma_witness_is_dots(s: Seq<char>, dots: Seq<usize>)
    requires
        is_ipv4_addr(s),
        dots.len() == 3,
        forall|a: int, b: int| 0 <= a < b < dots.len() ==> dots[a] < dots[b],
        forall|a: int| 0 <= a < dots.len() ==> 0 <= #[trigger] dots[a] < s.len(),
        forall|p: int|
            0 <= p < s.len() ==> (s[p] == '.' <==> exists|a: int|
                0 <= a < dots.len() && #[trigger] dots[a] == p),
    ensures
        0 < dots[0] < dots[1] < dots[2] < s.len(),
        is_dec_octet(s.subrange(0, dots[0] as int)),
        is_dec_octet(s.subrange(dots[0] as int + 1, dots[1] as int)),
        is_dec_octet(s.subrange(dots[1] as int + 1, dots[2] as int)),
        is_dec_octet(s.subrange(dots[2] as int + 1, s.len() as int)),
{
    let (wi, wj, wk): (int, int, int) = choose|wi: int, wj: int, wk: int|
        #![trigger s[wi], s[wj], s[wk]]
        {
            &&& 0 < wi < wj < wk < s.len()
            &&& s[wi] == '.'
            &&& s[wj] == '.'
            &&& s[wk] == '.'
            &&& is_dec_octet(s.subrange(0, wi))
            &&& is_dec_octet(s.subrange(wi + 1, wj))
            &&& is_dec_octet(s.subrange(wj + 1, wk))
            &&& is_dec_octet(s.subrange(wk + 1, s.len() as int))
        };
    assert forall|p: int| 0 <= p < s.len() && p != wi && p != wj && p != wk implies s[p] != '.' by {
        if p < wi {
            assert(s[p] == s.subrange(0, wi)[p]);
            assert(is_digit(s.subrange(0, wi)[p]));
        } else if p < wj {
            assert(s[p] == s.subrange(wi + 1, wj)[p - (wi + 1)]);
            assert(is_digit(s.subrange(wi + 1, wj)[p - (wi + 1)]));
        } else if p < wk {
            assert(s[p] == s.subrange(wj + 1, wk)[p - (wj + 1)]);
            assert(is_digit(s.subrange(wj + 1, wk)[p - (wj + 1)]));
        } else {
            assert(s[p] == s.subrange(wk + 1, s.len() as int)[p - (wk + 1)]);
            assert(is_digit(s.subrange(wk + 1, s.len() as int)[p - (wk + 1)]));
        }
    }
    // the dot list holds exactly the three witnesses, in order
    assert forall|a: int| 0 <= a < dots.len() implies dots[a] == wi || dots[a] == wj || dots[a]
        == wk by {
        assert(s[dots[a] as int] == '.');
    }
    assert(exists|a: int| 0 <= a < dots.len() && #[trigger] dots[a] == wi);
    assert(exists|a: int| 0 <= a < dots.len() && #[trigger] dots[a] == wj);
    assert(exists|a: int| 0 <= a < dots.len() && #[trigger] dots[a] == wk);
    let ai = choose|a: int| 0 <= a < dots.len() && #[trigger] dots[a] == wi;
    let aj = choose|a: int| 0 <= a < dots.len() && #[trigger] dots[a] == wj;
    let ak = choose|a: int| 0 <= a < dots.len() && #[trigger] dots[a] == wk;
    assert(dots[0] == wi && dots[1] == wj && dots[2] == wk);
}

/// A hexadecimal digit.
pub open spec fn is_hex_digit(c: char) -> bool {
    is_digit(c) || ('a' <= c && c <= 'f') || ('A' <= c && c <= 'F')
}

/// One 16-bit group of an IPv6 address: one to four hexadecimal digits.
pub open spec fn is_h16(s: Seq<char>) -> bool {
    &&& 1 <= s.len() <= 4
    &&& forall|i: int| 0 <= i < s.len() ==> is_hex_digit(#[trigger] s[i])
}

/// The index of the first colon at or after `i`, or `-1`.
pub open spec fn first_colon_from(s: Seq<char>, i: int) -> int
    decreases s.len() - i,
{
    if i < 0 || i >= s.len() {
        -1
    } else if s[i] == ':' {
        i
    } else {
        first_colon_from(s, i + 1)
    }
}

/// The number of groups in `s[i..]` read as a colon-separated list of
/// 16-bit groups, or `-1` when it is not one.
pub open spec fn h16_groups_from(s: Seq<char>, i: int) -> int
    decreases s.len() - i,
{
    if i < 0 || i > s.len() {
        -1
    } else {
        let p = first_colon_from(s, i);
        if p < 0 {
            if is_h16(s.subrange(i, s.len() as int)) {
                1
            } else {
                -1
            }
        } else if i <= p < s.len() {
            if is_h16(s.subrange(i, p)) {
                let rest = h16_groups_from(s, p + 1);
                if rest < 0 {
                    -1
                } else {
                    rest + 1
                }
            } else {
                -1
            }
        } else {
            -1
        }
    }
}

/// Like `h16_groups_from`, but the final part may instead be an embedded
/// dotted-quad IPv4 address, which stands for two groups.
pub open spec fn h16_groups_v4_from(s: Seq<char>, i: int) -> int
    decreases s.len() - i,
{
    if i < 0 || i > s.len() {
        -1
    } else {
        let p = first_colon_from(s, i);
        if p < 0 {
            if is_ipv4_addr(s.subrange(i, s.len() as int)) {
                2
            } else if is_h16(s.subrange(i, s.len() as int)) {
                1
            } else {
                -1
            }
        } else if i <= p < s.len() {
            if is_h16(s.subrange(i, p)) {
                let rest = h16_groups_v4_from(s, p + 1);
                if rest < 0 {
                    -1
                } else {
                    rest + 1
                }
            } else {
                -1
            }
        } else {
            -1
        }
    }
}

/// The string carries a single `::` elision at position `i`: what stands
/// left of it (if anything) is a group list, what stands right of it (if
/// anything) is a group list possibly ending in an embedded dotted quad,
/// and at most seven groups are written, so the elision covers at least
/// one zero group.
pub open spec fn ipv6_elision_at(s: Seq<char>, i: int) -> bool {
    &&& 0 <= i && i + 2 <= s.len()
    &&& s[i] == ':'
    &&& s[i + 1] == ':'
    &&& (i == 0 || h16_groups_from(s.subrange(0, i), 0) >= 1)
    &&& (i + 2 == s.len() || h16_groups_v4_from(s.subrange(i + 2, s.len() as int), 0) >= 1)
    &&& (if i == 0 {
        0
    } else {
        h16_groups_from(s.subrange(0, i), 0)
    }) + (if i + 2 == s.len() {
        0
    } else {
        h16_groups_v4_from(s.subrange(i + 2, s.len() as int), 0)
    }) <= 7
}

/// An IPv6 address in its textual forms: eight colon-separated groups
/// (the last 32 bits possibly as an embedded dotted quad), or a single
/// `::` eliding at least one zero group, with at most seven written
/// groups around it.
pub open spec fn is_ipv6_addr(s: Seq<char>) -> bool {
    ||| h16_groups_v4_from(s, 0) == 8
    ||| exists|i: int| #[trigger] ipv6_elision_at(s, i)
}

/// A parseable device address: dotted-quad IPv4 or textual IPv6.
pub open spec fn is_ip_addr(s: Seq<char>) -> bool {
    is_ipv4_addr(s) || is_ipv6_addr(s)
}

proof fn lemma_first_colon_found(s: Seq<char>, i: int, p: int)
    requires
        0 <= i <= p < s.len(),
        s[p] == ':',
        forall|j: int| i <= j < p ==> #[trigger] s[j] != ':',
    ensures
        first_colon_from(s, i) == p,
    decreases p - i,
{
    if i < p {
        lemma_first_colon_found(s, i + 1, p);
    }
}

proof fn lemma_first_colon_none(s: Seq<char>, i: int)
    requires
        0 <= i <= s.len(),
        forall|j: int| i <= j < s.len() ==> #[trigger] s[j] != ':',
    ensures
        first_colon_from(s, i) == -1,
    decreases s.len() - i,
{
    if i < s.len() {
        lemma_first_colon_none(s, i + 1);
    }
}

/// The first colon at or after `i`, when there is one, lies in `[i, len)`.
proof fn lemma_first_colon_range(s: Seq<char>, i: int)
    requires
        0 <= i <= s.len(),
    ensures
        first_colon_from(s, i) == -1 || i <= first_colon_from(s, i) < s.len(),
    decreases s.len() - i,
{
    if i < s.len() && s[i] != ':' {
        lemma_first_colon_range(s, i + 1);
    }
}

/// Group counts never exceed the remaining length.
proof fn lemma_h16_groups_bound(s: Seq<char>, i: int)
    requires
        0 <= i <= s.len(),
    ensures
        -1 <= h16_groups_from(s, i) <= s.len() - i,
        -1 <= h16_groups_v4_from(s, i) <= s.len() - i + 1,
    decreases s.len() - i,
{
    if 0 <= i <= s.len() {
        lemma_first_colon_range(s, i);
        let p = first_colon_from(s, i);
        if 0 <= p < s.len() {
            lemma_h16_groups_bound(s, p + 1);
        }
    }
}

/// Scans for the first colon at or after `from`.
fn find_colon(s: &str, from: usize) -> (r: Option<usize>)
    requires
        from <= s@.len() <= usize::MAX,
    ensures
        match r {
            Some(p) => from <= p < s@.len() && first_colon_from(s@, from as int) == p,
            None => first_colon_from(s@, from as int) == -1,
        },
{
    let n = s.unicode_len();
    let mut i = from;
    while i < n
        invariant
            from <= i <= n == s@.len(),
            forall|j: int| from <= j < i ==> #[trigger] s@[j] != ':',
        decreases n - i,
    {
        if s.get_char(i) == ':' {
            proof {
                lemma_first_colon_found(s@, from as int, i as int);
            }
            return Some(i);
        }
        i = i + 1;
    }
    proof {
        lemma_first_colon_none(s@, from as int);
    }
    None
}

/// Checks that `s[from..to]` is one 16-bit hexadecimal group.
fn check_h16(s: &str, from: usize, to: usize) -> (r: bool)
    requires
        from <= to <= s@.len(),
    ensures
        r == is_h16(s@.subrange(from as int, to as int)),
{
    let ghost seg = s@.subrange(from as int, to as int);
    let len = to - from;
    if len < 1 || len > 4 {
        return false;
    }
    let mut i: usize = 0;
    while i < len
        invariant
            from <= to <= s@.len(),
            len == to - from,
            seg == s@.subrange(from as int, to as int),
            0 <= i <= len,
            forall|j: int| 0 <= j < i ==> is_hex_digit(#[trigger] seg[j]),
        decreases len - i,
    {
        let c = s.get_char(from + i);
        assert(c == seg[i as int]);
        let ok = ('0' <= c && c <= '9') || ('a' <= c && c <= 'f') || ('A' <= c && c <= 'F');
        if !ok {
            assert(!is_hex_digit(seg[i as int]));
            return false;
        }
        i = i + 1;
    }
    true
}

/// Counts the 16-bit groups of `s[i..]`; `-1` when the tail is not a
/// group list.  `allow_v4` admits an embedded dotted quad as the final
/// part, counted as two groups.
fn count_groups(s: &str, i: usize, allow_v4: bool) -> (r: i128)
    requires
        i <= s@.len() <= usize::MAX,
    ensures
        allow_v4 ==> r == h16_groups_v4_from(s@, i as int),
        !allow_v4 ==> r == h16_groups_from(s@, i as int),
    decreases s@.len() - i,
{
    let n = s.unicode_len();
    match find_colon(s, i) {
        None => {
            if allow_v4 {
                let tail = s.substring_char(i, n);
                if is_valid_ipv4(tail) {
                    return 2;
                }
            }
            if check_h16(s, i, n) {
                1
            } else {
                -1
            }
        },
        Some(p) => {
            if !check_h16(s, i, p) {
                return -1;
            }
            proof {
                lemma_h16_groups_bound(s@, p + 1);
            }
            let rest = count_groups(s, p + 1, allow_v4);
            if rest < 0 {
                -1
            } else {
                rest + 1
            }
        },
    }
}

/// Validates a textual IPv6 address.
pub fn is_valid_ipv6(s: &str) -> (r: bool)
    ensures
        r == is_ipv6_addr(s@),
{
    let n = s.unicode_len();
    if count_groups(s, 0, true) == 8 {
        return true;
    }
    if n < 2 {
        proof {
            assert forall|k: int| !#[trigger] ipv6_elision_at(s@, k) by {}
        }
        return false;
    }
    let mut i: usize = 0;
    while i <= n - 2
        invariant
            2 <= n == s@.len() <= usize::MAX,
            0 <= i <= n - 1,
            forall|k: int| 0 <= k < i ==> !#[trigger] ipv6_elision_at(s@, k),
        decreases n - i,
    {
        if s.get_char(i) == ':' && s.get_char(i + 1) == ':' {
            let left: i128 = if i == 0 {
                0
            } else {
                let sub = s.substring_char(0, i);
                count_groups(sub, 0, false)
            };
            let right: i128 = if i + 2 == n {
                0
            } else {
                let sub = s.substring_char(i + 2, n);
                count_groups(sub, 0, true)
            };
            proof {
                if i != 0 {
                    lemma_h16_groups_bound(s@.subrange(0, i as int), 0);
                }
                if i + 2 != n {
                    lemma_h16_groups_bound(s@.subrange(i as int + 2, s@.len() as int), 0);
                }
            }
            if (i == 0 || left >= 1) && (i + 2 == n || right >= 1) && left + right <= 7 {
                proof {
                    assert(ipv6_elision_at(s@, i as int));
                }
                return true;
            }
            proof {
                assert(!ipv6_elision_at(s@, i as int));
            }
        } else {
            proof {
                assert(!ipv6_elision_at(s@, i as int));
            }
        }
        i = i + 1;
    }
    proof {
        assert forall|k: int| !#[trigger] ipv6_elision_at(s@, k) by {
            if 0 <= k < i {
            } else {
                if ipv6_elision_at(s@, k) {
                    assert(0 <= k && k + 2 <= s@.len());
                    assert(false);
                }
            }
        }
    }
    false
}

/// Validates a device address: dotted-quad IPv4 or textual IPv6.
pub fn is_valid_ip(s: &str) -> (r: bool)
    ensures
        r == is_ip_addr(s@),
{
    if is_valid_ipv4(s) {
        true
    } else {
        is_valid_ipv6(s)
    }
}

} // verus!
