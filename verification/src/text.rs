//! Small string-building and ASCII helpers shared by the rest of the crate.
//!
//! All strings assembled here (URLs, filenames, error messages) are built by
//! appending pieces onto a `String`; the two appending primitives are thin
//! wrappers over std whose effect on the string's view is stated exactly.

use vstd::prelude::*;

verus! {

/// Relies on std's `String::push_str`: appends the slice onto the end of the string.
#[verifier::external_body]
pub fn push_str(s: &mut String, t: &str)
    ensures
        final(s)@ == old(s)@ + t@,
{
    s.push_str(t);
}

/// Relies on std's `String::push`: appends the character onto the end of the string.
#[verifier::external_body]
pub fn push_char(s: &mut String, c: char)
    ensures
        final(s)@ == old(s)@.push(c),
{
    s.push(c);
}

/// ASCII lower-casing of one character; other characters are left unchanged.
pub open spec fn lower_char(c: char) -> char {
    if 'A' <= c && c <= 'Z' {
        (((c as u32) + 32) as u8) as char
    } else {
        c
    }
}

/// ASCII upper-casing of one character; other characters are left unchanged.
pub open spec fn upper_char(c: char) -> char {
    if 'a' <= c && c <= 'z' {
        (((c as u32) - 32) as u8) as char
    } else {
        c
    }
}

pub open spec fn lower_seq(s: Seq<char>) -> Seq<char> {
    s.map_values(|c: char| lower_char(c))
}

pub fn lower_char_exec(c: char) -> (r: char)
    ensures
        r == lower_char(c),
{
    if 'A' <= c && c <= 'Z' {
        let b: u8 = ((c as u32) + 32) as u8;
        b as char
    } else {
        c
    }
}

pub fn upper_char_exec(c: char) -> (r: char)
    ensures
        r == upper_char(c),
{
    if 'a' <= c && c <= 'z' {
        let b: u8 = ((c as u32) - 32) as u8;
        b as char
    } else {
        c
    }
}

/// ASCII lower-casing of a whole string.
pub fn to_lowercase(s: &str) -> (r: String)
    ensures
        r@ == lower_seq(s@),
{
    let n = s.unicode_len();
    let mut r = String::new();
    let mut i: usize = 0;
    while i < n
        invariant
            n == s@.len(),
            i <= n,
            r@ == lower_seq(s@.subrange(0, i as int)),
        decreases n - i,
    {
        let c = s.get_char(i);
        push_char(&mut r, lower_char_exec(c));
        proof {
            assert(s@.subrange(0, i + 1).drop_last() =~= s@.subrange(0, i as int));
            assert(lower_seq(s@.subrange(0, i + 1)) =~= lower_seq(
                s@.subrange(0, i as int),
            ).push(lower_char(s@[i as int])));
        }
        i = i + 1;
    }
    proof {
        assert(s@.subrange(0, n as int) =~= s@);
    }
    r
}

/// The decimal digit character for a value below ten.
pub open spec fn digit_char(d: int) -> char {
    ((('0' as u8) + d) as u8) as char
}

/// The decimal representation of `n`, most significant digit first.
pub open spec fn dec_str(n: nat) -> Seq<char>
    decreases n,
{
    if n < 10 {
        seq![digit_char(n as int)]
    } else {
        dec_str(n / 10).push(digit_char((n % 10) as int))
    }
}

/// Appends the decimal representation of `n` onto `s`.
pub fn append_u64(s: &mut String, n: u64)
    ensures
        final(s)@ == old(s)@ + dec_str(n as nat),
    decreases n,
{
    if n >= 10 {
        append_u64(s, n / 10);
    }
    let d: u8 = (n % 10) as u8;
    let c: char = (48 + d) as char;
    push_char(s, c);
    proof {
        if n < 10 {
            assert(old(s)@ + dec_str(n as nat) =~= old(s)@.push(digit_char(n as int)));
        } else {
            assert(old(s)@ + dec_str(n as nat) =~= (old(s)@ + dec_str((n / 10) as nat)).push(
                digit_char((n % 10) as int),
            ));
        }
    }
}

/// ASCII whitespace, as trimmed from the ends of user-supplied tokens.
pub open spec fn is_space_char(c: char) -> bool {
    c == ' ' || c == '\t' || c == '\n' || c == '\r'
}

/// The sequence with leading whitespace removed.
pub open spec fn trim_front(s: Seq<char>) -> Seq<char>
    decreases s.len(),
{
    if s.len() > 0 && is_space_char(s[0]) {
        trim_front(s.drop_first())
    } else {
        s
    }
}

/// The sequence with trailing whitespace removed.
pub open spec fn trim_back(s: Seq<char>) -> Seq<char>
    decreases s.len(),
{
    if s.len() > 0 && is_space_char(s.last()) {
        trim_back(s.drop_last())
    } else {
        s
    }
}

/// The sequence with whitespace removed from both ends.
pub open spec fn trim_spec(s: Seq<char>) -> Seq<char> {
    trim_back(trim_front(s))
}

proof fn lemma_trim_front_at(s: Seq<char>, a: int)
    requires
        0 <= a <= s.len(),
        forall|j: int| 0 <= j < a ==> is_space_char(#[trigger] s[j]),
        a < s.len() ==> !is_space_char(s[a]),
    ensures
        trim_front(s) == s.subrange(a, s.len() as int),
    decreases a,
{
    if a == 0 {
        if s.len() > 0 && is_space_char(s[0]) {
            assert(false);
        }
        assert(s.subrange(0, s.len() as int) =~= s);
    } else {
        assert(is_space_char(s[0]));
        lemma_trim_front_at(s.drop_first(), a - 1);
        assert(s.drop_first().subrange(a - 1, s.drop_first().len() as int) =~= s.subrange(
            a,
            s.len() as int,
        ));
    }
}

proof fn lemma_trim_back_at(s: Seq<char>, b: int)
    requires
        0 <= b <= s.len(),
        forall|j: int| b <= j < s.len() ==> is_space_char(#[trigger] s[j]),
        b > 0 ==> !is_space_char(s[b - 1]),
    ensures
        trim_back(s) == s.subrange(0, b),
    decreases s.len() - b,
{
    if b == s.len() {
        if s.len() > 0 && is_space_char(s.last()) {
            assert(false);
        }
        assert(s.subrange(0, s.len() as int) =~= s);
    } else {
        assert(is_space_char(s.last()));
        lemma_trim_back_at(s.drop_last(), b);
        assert(s.drop_last().subrange(0, b) =~= s.subrange(0, b));
    }
}

/// Copies `s[from..to]` with whitespace trimmed from both ends.
pub fn trim_copy(s: &str, from: usize, to: usize) -> (r: String)
    requires
        from <= to <= s@.len(),
    ensures
        r@ == trim_spec(s@.subrange(from as int, to as int)),
{
    let ghost seg = s@.subrange(from as int, to as int);
    let mut a = from;
    while a < to
        invariant
            from <= a <= to <= s@.len(),
            seg == s@.subrange(from as int, to as int),
            forall|j: int| from <= j < a ==> is_space_char(#[trigger] s@[j]),
        ensures
            from <= a <= to,
            forall|j: int| from <= j < a ==> is_space_char(#[trigger] s@[j]),
            a < to ==> !is_space_char(s@[a as int]),
        decreases to - a,
    {
        let c = s.get_char(a);
        if c == ' ' || c == '\t' || c == '\n' || c == '\r' {
            a = a + 1;
        } else {
            break;
        }
    }
    let mut b = to;
    while b > a
        invariant
            from <= a <= b <= to <= s@.len(),
            seg == s@.subrange(from as int, to as int),
            forall|j: int| b <= j < to ==> is_space_char(#[trigger] s@[j]),
        ensures
            a <= b <= to,
            forall|j: int| b <= j < to ==> is_space_char(#[trigger] s@[j]),
            b > a ==> !is_space_char(s@[b - 1]),
        decreases b - a,
    {
        let c = s.get_char(b - 1);
        if c == ' ' || c == '\t' || c == '\n' || c == '\r' {
            b = b - 1;
        } else {
            break;
        }
    }
    let mut r = String::new();
    let mut i = a;
    while i < b
        invariant
            from <= a <= i <= b <= to <= s@.len(),
            r@ == s@.subrange(a as int, i as int),
        decreases b - i,
    {
        let c = s.get_char(i);
        push_char(&mut r, c);
        proof {
            assert(s@.subrange(a as int, i + 1) =~= s@.subrange(a as int, i as int).push(
                s@[i as int],
            ));
        }
        i = i + 1;
    }
    proof {
        assert(r@ == s@.subrange(a as int, b as int)) by {
            assert(s@.subrange(a as int, a as int) =~= Seq::<char>::empty());
        }
        lemma_trim_front_at(seg, a - from);
        assert(trim_front(seg) == seg.subrange(a - from, seg.len() as int));
        assert(seg.subrange(a - from, seg.len() as int) =~= s@.subrange(a as int, to as int));
        let mid = s@.subrange(a as int, to as int);
        lemma_trim_back_at(mid, b - a);
        assert(trim_back(mid) == mid.subrange(0, b - a));
        assert(mid.subrange(0, b - a) =~= s@.subrange(a as int, b as int));
    }
    r
}

/// The index of the first comma at or after `i`, or `-1` when there is none.
pub open spec fn first_comma_from(s: Seq<char>, i: int) -> int
    decreases s.len() - i,
{
    if i < 0 || i >= s.len() {
        -1
    } else if s[i] == ',' {
        i
    } else {
        first_comma_from(s, i + 1)
    }
}

proof fn lemma_first_comma_found(s: Seq<char>, i: int, p: int)
    requires
        0 <= i <= p < s.len(),
        s[p] == ',',
        forall|j: int| i <= j < p ==> #[trigger] s[j] != ',',
    ensures
        first_comma_from(s, i) == p,
    decreases p - i,
{
    if i < p {
        lemma_first_comma_found(s, i + 1, p);
    }
}

proof fn lemma_first_comma_none(s: Seq<char>, i: int)
    requires
        0 <= i <= s.len(),
        forall|j: int| i <= j < s.len() ==> #[trigger] s[j] != ',',
    ensures
        first_comma_from(s, i) == -1,
    decreases s.len() - i,
{
    if i < s.len() {
        lemma_first_comma_none(s, i + 1);
    }
}

/// Scans for the first comma at or after `from`.
pub fn find_comma(s: &str, from: usize) -> (r: Option<usize>)
    requires
        from <= s@.len(),
    ensures
        match r {
            Some(p) => from <= p < s@.len() && first_comma_from(s@, from as int) == p,
            None => first_comma_from(s@, from as int) == -1,
        },
{
    let n = s.unicode_len();
    let mut i = from;
    while i < n
        invariant
            from <= i <= n == s@.len(),
            forall|j: int| from <= j < i ==> #[trigger] s@[j] != ',',
        decreases n - i,
    {
        if s.get_char(i) == ',' {
            proof {
                lemma_first_comma_found(s@, from as int, i as int);
            }
            return Some(i);
        }
        i = i + 1;
    }
    proof {
        lemma_first_comma_none(s@, from as int);
    }
    None
}

/// The comma-separated segments of `s[i..]`.
pub open spec fn split_from(s: Seq<char>, i: int) -> Seq<Seq<char>>
    decreases s.len() - i,
{
    if i < 0 || i > s.len() {
        Seq::empty()
    } else {
        let p = first_comma_from(s, i);
        if p < 0 {
            seq![s.subrange(i, s.len() as int)]
        } else if i <= p < s.len() {
            seq![s.subrange(i, p)] + split_from(s, p + 1)
        } else {
            Seq::empty()
        }
    }
}

/// Trims each segment and drops the segments that are empty after trimming.
pub open spec fn clean_tokens(parts: Seq<Seq<char>>) -> Seq<Seq<char>>
    decreases parts.len(),
{
    if parts.len() == 0 {
        Seq::empty()
    } else {
        let t = trim_spec(parts[0]);
        let rest = clean_tokens(parts.drop_first());
        if t.len() > 0 {
            seq![t] + rest
        } else {
            rest
        }
    }
}

/// The comma-separated, trimmed, non-empty tokens of a selector string.
pub open spec fn csv_tokens(s: Seq<char>) -> Seq<Seq<char>> {
    clean_tokens(split_from(s, 0))
}

/// Splits a selector string on commas, trims each token, and keeps the
/// non-empty ones.
pub fn split_csv(s: &str) -> (r: Vec<String>)
    ensures
        r@.map_values(|t: String| t@) == csv_tokens(s@),
{
    let n = s.unicode_len();
    let mut out: Vec<String> = Vec::new();
    let mut i: usize = 0;
    loop
        invariant
            0 <= i <= n == s@.len(),
            csv_tokens(s@) == out@.map_values(|t: String| t@) + clean_tokens(
                split_from(s@, i as int),
            ),
        decreases n - i,
    {
        let ghost pre = out@.map_values(|t: String| t@);
        match find_comma(s, i) {
            Some(p) => {
                let tok = trim_copy(s, i, p);
                if tok.as_str().is_empty() {
                    proof {
                        assert(split_from(s@, i as int) == seq![s@.subrange(i as int, p as int)]
                            + split_from(s@, p + 1));
                        assert(split_from(s@, i as int).drop_first() =~= split_from(s@, p + 1));
                        assert(clean_tokens(split_from(s@, i as int)) == clean_tokens(
                            split_from(s@, p + 1),
                        ));
                    }
                } else {
                    out.push(tok);
                    proof {
                        assert(split_from(s@, i as int) == seq![s@.subrange(i as int, p as int)]
                            + split_from(s@, p + 1));
                        assert(split_from(s@, i as int).drop_first() =~= split_from(s@, p + 1));
                        assert(out@.map_values(|t: String| t@) =~= pre.push(
                            trim_spec(s@.subrange(i as int, p as int)),
                        ));
                        assert(pre + clean_tokens(split_from(s@, i as int)) =~= out@.map_values(
                            |t: String| t@,
                        ) + clean_tokens(split_from(s@, p + 1)));
                    }
                }
                i = p + 1;
            },
            None => {
                let tok = trim_copy(s, i, n);
                if tok.as_str().is_empty() {
                    proof {
                        assert(split_from(s@, i as int) == seq![
                            s@.subrange(i as int, s@.len() as int),
                        ]);
                        assert(split_from(s@, i as int).drop_first() =~= Seq::<Seq<char>>::empty());
                        assert(clean_tokens(Seq::<Seq<char>>::empty()) == Seq::<Seq<char>>::empty());
                        assert(csv_tokens(s@) =~= out@.map_values(|t: String| t@));
                    }
                } else {
                    out.push(tok);
                    proof {
                        assert(split_from(s@, i as int) == seq![
                            s@.subrange(i as int, s@.len() as int),
                        ]);
                        assert(split_from(s@, i as int).drop_first() =~= Seq::<Seq<char>>::empty());
                        assert(clean_tokens(Seq::<Seq<char>>::empty()) == Seq::<Seq<char>>::empty());
                        assert(clean_tokens(split_from(s@, i as int)) =~= seq![
                            trim_spec(s@.subrange(i as int, s@.len() as int)),
                        ]);
                        assert(out@.map_values(|t: String| t@) =~= pre.push(
                            trim_spec(s@.subrange(i as int, s@.len() as int)),
                        ));
                        assert(csv_tokens(s@) =~= out@.map_values(|t: String| t@));
                    }
                }
                return out;
            },
        }
    }
}

/// The decimal representation of `n` as a fresh string.
pub fn u64_to_string(n: u64) -> (r: String)
    ensures
        r@ == dec_str(n as nat),
{
    let mut s = String::new();
    append_u64(&mut s, n);
    proof {
        assert(Seq::<char>::empty() + dec_str(n as nat) =~= dec_str(n as nat));
    }
    s
}

} // verus!
