//! Small verified string helpers: equality, decimal rendering, and
//! case-insensitive substring search.

use vstd::prelude::*;
use vstd::string::StringExecFns;
use vstd::string::StrSliceExecFns;

verus! {

/// String slice equality, decided through `String` comparison.
pub fn str_eq(a: &str, b: &str) -> (r: bool)
    ensures
        r == (a@ == b@),
{
    let a1: String = a.to_owned();
    let b1: String = b.to_owned();
    a1 == b1
}

/// The decimal digit character for a value below ten.
pub open spec fn dec_digit(d: int) -> char
    recommends
        0 <= d < 10,
{
    ((0x30 + d) as u8) as char
}

/// The decimal digit characters of a non-negative integer, most significant
/// first.
pub open spec fn spec_dec(n: int) -> Seq<char>
    recommends
        n >= 0,
    decreases n,
{
    if n < 10 {
        seq![dec_digit(n)]
    } else {
        spec_dec(n / 10).push(dec_digit(n % 10))
    }
}

/// The decimal rendering of a signed integer: a minus sign for negatives.
pub open spec fn spec_dec_i64(n: int) -> Seq<char> {
    if n >= 0 {
        spec_dec(n)
    } else {
        seq!['-'] + spec_dec(-n)
    }
}

fn digit_str(d: u64) -> (r: &'static str)
    requires
        d < 10,
    ensures
        r@ =~= seq![dec_digit(d as int)],
{
    proof {
        reveal_strlit("0");
        reveal_strlit("1");
        reveal_strlit("2");
        reveal_strlit("3");
        reveal_strlit("4");
        reveal_strlit("5");
        reveal_strlit("6");
        reveal_strlit("7");
        reveal_strlit("8");
        reveal_strlit("9");
    }
    match d {
        0 => "0",
        1 => "1",
        2 => "2",
        3 => "3",
        4 => "4",
        5 => "5",
        6 => "6",
        7 => "7",
        8 => "8",
        _ => "9",
    }
}

/// Renders an unsigned integer in decimal.
pub fn u64_to_string(n: u64) -> (s: String)
    ensures
        s@ == spec_dec(n as int),
    decreases n,
{
    if n < 10 {
        digit_str(n).to_owned()
    } else {
        let mut s = u64_to_string(n / 10);
        s.append(digit_str(n % 10));
        s
    }
}

/// Renders a signed integer in decimal.
pub fn i64_to_string(n: i64) -> (s: String)
    ensures
        s@ == spec_dec_i64(n as int),
{
    if n >= 0 {
        u64_to_string(n as u64)
    } else {
        let mag: u64 = if n == i64::MIN {
            9223372036854775808u64
        } else {
            (-n) as u64
        };
        assert(mag as int == -(n as int));
        proof {
            reveal_strlit("-");
        }
        let mut s: String = String::from_str("-");
        s.append(u64_to_string(mag).as_str());
        assert(s@ =~= spec_dec_i64(n as int));
        s
    }
}

/// ASCII lowercase folding of a single character.
pub open spec fn lower_char(c: char) -> char {
    if 65 <= c as u32 <= 90 {
        (((c as u32) + 32) as u8) as char
    } else {
        c
    }
}

/// A sequence of characters folded to ASCII lowercase.
pub open spec fn lowered(s: Seq<char>) -> Seq<char> {
    s.map_values(|c: char| lower_char(c))
}

fn lower(c: char) -> (r: char)
    ensures
        r == lower_char(c),
{
    let u = c as u32;
    if 65 <= u && u <= 90 {
        ((u + 32) as u8) as char
    } else {
        c
    }
}

fn to_lower_chars(s: &str) -> (v: Vec<char>)
    ensures
        v@ == lowered(s@),
{
    let n = s.unicode_len();
    let mut v: Vec<char> = Vec::new();
    for i in 0..n
        invariant
            n == s@.len(),
            v@ =~= lowered(s@.subrange(0, i as int)),
    {
        v.push(lower(s.get_char(i)));
        assert(s@.subrange(0, i + 1) =~= s@.subrange(0, i as int).push(s@[i as int]));
        assert(v@ =~= lowered(s@.subrange(0, i + 1)));
    }
    assert(s@.subrange(0, n as int) =~= s@);
    v
}

/// `n` occurs as a contiguous run within `h`.
pub open spec fn spec_contains_seq(h: Seq<char>, n: Seq<char>) -> bool {
    exists|i: int|
        0 <= i && i + n.len() <= h.len() && #[trigger] h.subrange(i, i + n.len() as int) == n
}

/// `needle` occurs within `hay` up to ASCII case.
pub open spec fn spec_contains_ci(hay: Seq<char>, needle: Seq<char>) -> bool {
    spec_contains_seq(lowered(hay), lowered(needle))
}

fn contains_seq(h: &Vec<char>, n: &Vec<char>) -> (r: bool)
    ensures
        r == spec_contains_seq(h@, n@),
{
    let hlen = h.len();
    let nlen = n.len();
    if nlen > hlen {
        return false;
    }
    if nlen == 0 {
        assert(h@.subrange(0, 0 + n@.len() as int) =~= n@);
        return true;
    }
    let end = hlen - nlen;
    let mut i: usize = 0;
    while i <= end
        invariant
            nlen == n@.len(),
            hlen == h@.len(),
            1 <= nlen <= hlen,
            end == hlen - nlen,
            i <= end + 1,
            forall|k: int|
                0 <= k < i ==> #[trigger] h@.subrange(k, k + n@.len() as int) != n@,
        decreases end + 1 - i,
    {
        let mut j: usize = 0;
        let mut hit = true;
        while j < nlen
            invariant
                nlen == n@.len(),
                hlen == h@.len(),
                i + nlen <= hlen,
                j <= nlen,
                hit ==> forall|q: int| 0 <= q < j ==> h@[i + q] == n@[q],
                !hit ==> h@.subrange(i as int, i + n@.len() as int) != n@,
            decreases nlen - j,
        {
            let hc = h[i + j];
            let nc = n[j];
            if hc != nc {
                proof {
                    let sub = h@.subrange(i as int, i + n@.len() as int);
                    assert(sub[j as int] == h@[i + j]);
                    assert(h@[i + j] != n@[j as int]);
                }
                hit = false;
                j = nlen;
            } else {
                assert(h@[i + j] == n@[j as int]);
                j = j + 1;
            }
        }
        if hit {
            assert(h@.subrange(i as int, i + n@.len() as int) =~= n@);
            return true;
        }
        i = i + 1;
    }
    assert forall|k: int| 0 <= k && k + n@.len() <= h@.len() implies #[trigger] h@.subrange(
        k,
        k + n@.len() as int,
    ) != n@ by {
        assert(k <= end);
    }
    false
}

/// Case-insensitive substring test, ASCII folding on both sides.
pub fn contains_ci(hay: &str, needle: &str) -> (r: bool)
    ensures
        r == spec_contains_ci(hay@, needle@),
{
    let h = to_lower_chars(hay);
    let n = to_lower_chars(needle);
    contains_seq(&h, &n)
}


/// Strict lexicographic order on character sequences, by code point.
pub open spec fn lex_lt(a: Seq<char>, b: Seq<char>) -> bool
    decreases a.len(),
{
    if b.len() == 0 {
        false
    } else if a.len() == 0 {
        true
    } else if a[0] < b[0] {
        true
    } else if a[0] == b[0] {
        lex_lt(a.skip(1), b.skip(1))
    } else {
        false
    }
}

/// Of two character sequences, exactly one of: less, equal, greater.
pub proof fn lemma_lex_trichotomy(a: Seq<char>, b: Seq<char>)
    ensures
        lex_lt(a, b) || a == b || lex_lt(b, a),
        lex_lt(a, b) ==> a != b && !lex_lt(b, a),
        a == b ==> !lex_lt(a, b) && !lex_lt(b, a),
    decreases a.len(),
{
    if a.len() == 0 && b.len() == 0 {
        assert(a =~= b);
    } else if a.len() > 0 && b.len() > 0 {
        lemma_lex_trichotomy(a.skip(1), b.skip(1));
        if a[0] == b[0] {
            if a.skip(1) == b.skip(1) {
                assert(a =~= b) by {
                    assert forall|i: int| 0 <= i < a.len() implies a[i] == b[i] by {
                        if i > 0 {
                            assert(a.skip(1)[i - 1] == a[i]);
                            assert(b.skip(1)[i - 1] == b[i]);
                        }
                    }
                }
            } else {
                assert(a != b);
            }
        } else {
            assert(a != b);
        }
    }
}

/// Lexicographic order is transitive.
pub proof fn lemma_lex_transitive(a: Seq<char>, b: Seq<char>, c: Seq<char>)
    requires
        lex_lt(a, b),
        lex_lt(b, c),
    ensures
        lex_lt(a, c),
    decreases a.len(),
{
    if a.len() > 0 && b.len() > 0 && c.len() > 0 {
        if a[0] == b[0] && b[0] == c[0] {
            lemma_lex_transitive(a.skip(1), b.skip(1), c.skip(1));
        }
    }
}

/// Strict lexicographic comparison of string slices by code point.
pub fn lex_less(a: &str, b: &str) -> (r: bool)
    ensures
        r == lex_lt(a@, b@),
{
    let alen = a.unicode_len();
    let blen = b.unicode_len();
    let mut i: usize = 0;
    assert(a@.skip(0) =~= a@);
    assert(b@.skip(0) =~= b@);
    loop
        invariant
            i <= alen,
            i <= blen,
            alen == a@.len(),
            blen == b@.len(),
            lex_lt(a@, b@) == lex_lt(a@.skip(i as int), b@.skip(i as int)),
        decreases alen - i,
    {
        if i >= blen {
            assert(b@.skip(i as int).len() == 0);
            return false;
        }
        if i >= alen {
            assert(a@.skip(i as int).len() == 0);
            return true;
        }
        let ca = a.get_char(i);
        let cb = b.get_char(i);
        proof {
            assert(a@.skip(i as int)[0] == a@[i as int]);
            assert(b@.skip(i as int)[0] == b@[i as int]);
            assert(a@.skip(i as int).skip(1) =~= a@.skip(i + 1));
            assert(b@.skip(i as int).skip(1) =~= b@.skip(i + 1));
        }
        if ca < cb {
            return true;
        }
        if ca != cb {
            return false;
        }
        i = i + 1;
    }
}


/// A value occurs in the list, compared by contents.
pub open spec fn seq_has_str(v: Seq<String>, x: Seq<char>) -> bool {
    exists|i: int| 0 <= i < v.len() && (#[trigger] v[i])@ == x
}

/// The list is strictly ascending in lexicographic order.
pub open spec fn strictly_ascending(v: Seq<String>) -> bool {
    forall|i: int, j: int|
        0 <= i < j < v.len() ==> lex_lt((#[trigger] v[i])@, (#[trigger] v[j])@)
}

fn lower_bound(v: &Vec<String>, s: &str) -> (pos: usize)
    ensures
        pos <= v@.len(),
        forall|k: int| 0 <= k < pos ==> lex_lt((#[trigger] v@[k])@, s@),
        pos < v@.len() ==> !lex_lt(v@[pos as int]@, s@),
{
    let n = v.len();
    for i in 0..n
        invariant
            n == v@.len(),
            forall|k: int| 0 <= k < i ==> lex_lt((#[trigger] v@[k])@, s@),
    {
        if !lex_less(v[i].as_str(), s) {
            return i;
        }
    }
    n
}

/// Inserts a value into an ascending list of distinct values, keeping it
/// ascending; present values are left alone.
pub fn insert_sorted_unique(v: &mut Vec<String>, s: String)
    requires
        strictly_ascending(old(v)@),
    ensures
        strictly_ascending(final(v)@),
        forall|x: Seq<char>|
            #[trigger] seq_has_str(final(v)@, x) <==> seq_has_str(old(v)@, x) || x == s@,
{
    let pos = lower_bound(v, s.as_str());
    if pos < v.len() {
        if str_eq(v[pos].as_str(), s.as_str()) {
            proof {
                assert(seq_has_str(v@, s@));
                assert forall|x: Seq<char>| #[trigger] seq_has_str(final(v)@, x) <==> seq_has_str(
                    old(v)@,
                    x,
                ) || x == s@ by {}
            }
            return;
        }
    }
    let ghost o = v@;
    v.insert(pos, s);
    proof {
        assert forall|k: int| 0 <= k < o.len() + 1 implies v@[k] == (if k < pos {
            o[k]
        } else if k == pos {
            s
        } else {
            o[k - 1]
        }) by {
            if k < pos {
                assert(v@[k] == o.insert(pos as int, s)[k]);
            }
        }
        if pos < o.len() {
            lemma_lex_trichotomy(o[pos as int]@, s@);
        }
        assert forall|i: int, j: int| 0 <= i < j < v@.len() implies lex_lt(
            (#[trigger] v@[i])@,
            (#[trigger] v@[j])@,
        ) by {
            if j < pos {
            } else if j == pos {
                assert(lex_lt(o[i]@, s@));
            } else if i == pos {
                assert(!lex_lt(o[pos as int]@, s@) && o[pos as int]@ != s@);
                assert(lex_lt(s@, o[pos as int]@));
                if j - 1 > pos {
                    lemma_lex_transitive(s@, o[pos as int]@, o[j - 1]@);
                }
            } else if i < pos {
                assert(lex_lt(o[i]@, o[j - 1]@));
            } else {
                assert(lex_lt(o[i - 1]@, o[j - 1]@));
            }
        }
        assert forall|x: Seq<char>| #[trigger] seq_has_str(v@, x) <==> seq_has_str(o, x) || x
            == s@ by {
            if seq_has_str(v@, x) {
                let w = choose|w: int| 0 <= w < v@.len() && (#[trigger] v@[w])@ == x;
                if w < pos {
                    assert(o[w]@ == x);
                } else if w == pos {
                } else {
                    assert(o[w - 1]@ == x);
                }
            }
            if seq_has_str(o, x) {
                let w = choose|w: int| 0 <= w < o.len() && (#[trigger] o[w])@ == x;
                if w < pos {
                    assert(v@[w]@ == x);
                } else {
                    assert(v@[w + 1]@ == x);
                }
            }
            if x == s@ {
                assert(v@[pos as int]@ == x);
            }
        }
    }
}

} // verus!
