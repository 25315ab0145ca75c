use vstd::prelude::*;

use vstd::string::StrSliceExecFns;
use vstd::string::StringExecFns;

verus! {

// ---------------------------------------------------------------------------
// Character-level text helpers: searching, splitting and joining, with
// exact specifications.
// ---------------------------------------------------------------------------

/// Index of the first occurrence of `sep` at or after `i`, or -1.
pub open spec fn find_from(s: Seq<char>, sep: char, i: int) -> int
    decreases s.len() - i,
{
    if !(0 <= i <= s.len()) {
        -1
    } else if i == s.len() {
        -1
    } else if s[i] == sep {
        i
    } else {
        find_from(s, sep, i + 1)
    }
}

pub proof fn lemma_find_from_bounds(s: Seq<char>, sep: char, i: int)
    requires
        0 <= i <= s.len(),
    ensures
        ({
            let r = find_from(s, sep, i);
            &&& r == -1 || (i <= r < s.len() && s[r] == sep)
        }),
    decreases s.len() - i,
{
    if i < s.len() && s[i] != sep {
        lemma_find_from_bounds(s, sep, i + 1);
    }
}

/// The segments of `s` from position `i` on, split at `sep`.  There is
/// always at least one (possibly empty) segment; a trailing separator
/// yields a trailing empty segment.
pub open spec fn split_from(s: Seq<char>, sep: char, i: int) -> Seq<Seq<char>>
    decreases s.len() - i,
    via split_from_decreases
{
    if !(0 <= i <= s.len()) {
        Seq::empty()
    } else {
        let j = find_from(s, sep, i);
        if j < 0 {
            seq![s.subrange(i, s.len() as int)]
        } else {
            seq![s.subrange(i, j)] + split_from(s, sep, j + 1)
        }
    }
}

#[via_fn]
proof fn split_from_decreases(s: Seq<char>, sep: char, i: int) {
    if 0 <= i <= s.len() {
        lemma_find_from_bounds(s, sep, i);
    }
}

/// The segments of `s`, split at `sep`.
pub open spec fn split_chars(s: Seq<char>, sep: char) -> Seq<Seq<char>> {
    split_from(s, sep, 0)
}

pub proof fn lemma_split_from_nonempty(s: Seq<char>, sep: char, i: int)
    requires
        0 <= i <= s.len(),
    ensures
        split_from(s, sep, i).len() >= 1,
{
    lemma_find_from_bounds(s, sep, i);
}

/// The segments joined back with `sep` between them.
pub open spec fn join_chars(parts: Seq<Seq<char>>, sep: char) -> Seq<char>
    decreases parts.len(),
{
    if parts.len() == 0 {
        Seq::empty()
    } else if parts.len() == 1 {
        parts[0]
    } else {
        parts[0] + seq![sep] + join_chars(parts.drop_first(), sep)
    }
}

/// Joining grows from the right: appending one more segment appends a
/// separator and that segment.
pub proof fn lemma_join_push(parts: Seq<Seq<char>>, sep: char, x: Seq<char>)
    ensures
        join_chars(parts.push(x), sep) == if parts.len() == 0 {
            x
        } else {
            join_chars(parts, sep) + seq![sep] + x
        },
    decreases parts.len(),
{
    if parts.len() == 0 {
        assert(parts.push(x).len() == 1);
        assert(parts.push(x)[0] == x);
    } else if parts.len() == 1 {
        assert(parts.push(x)[0] == parts[0]);
        assert(parts.push(x).drop_first() =~= seq![x]);
        assert(join_chars(seq![x], sep) == x);
    } else {
        assert(parts.push(x).drop_first() =~= parts.drop_first().push(x));
        lemma_join_push(parts.drop_first(), sep, x);
        assert(parts.push(x)[0] == parts[0]);
        assert((parts[0] + seq![sep]) + (join_chars(parts.drop_first(), sep) + seq![sep] + x) =~= (
        parts[0] + seq![sep] + join_chars(parts.drop_first(), sep)) + seq![sep] + x);
    }
}

/// Splits `s` at `sep`, returning the segments in order.
#[verifier::loop_isolation(false)]
pub fn split_str(s: &str, sep: char) -> (r: Vec<String>)
    ensures
        r@.map_values(|t: String| t@) == split_chars(s@, sep),
{
    let n = s.unicode_len();
    let mut segs: Vec<String> = Vec::new();
    let mut cur: usize = 0;
    loop
        invariant
            0 <= cur <= n,
            n == s@.len(),
            split_chars(s@, sep) =~= segs@.map_values(|t: String| t@) + split_from(
                s@,
                sep,
                cur as int,
            ),
        decreases n - cur,
    {
        // find the next separator
        let mut j: usize = cur;
        while j < n && s.get_char(j) != sep
            invariant
                cur <= j <= n,
                find_from(s@, sep, cur as int) == find_from(s@, sep, j as int),
            decreases n - j,
        {
            j += 1;
        }
        if j == n {
            // no separator left: the rest is the last segment
            assert(find_from(s@, sep, cur as int) == -1);
            let seg = s.substring_char(cur, n);
            let ghost before = segs@;
            segs.push(String::from_str(seg));
            proof {
                assert(segs@.map_values(|t: String| t@) =~= before.map_values(|t: String| t@)
                    + seq![s@.subrange(cur as int, n as int)]);
            }
            return segs;
        } else {
            assert(find_from(s@, sep, cur as int) == j as int);
            let seg = s.substring_char(cur, j);
            let ghost before = segs@;
            segs.push(String::from_str(seg));
            proof {
                assert(segs@.map_values(|t: String| t@) =~= before.map_values(|t: String| t@)
                    + seq![s@.subrange(cur as int, j as int)]);
            }
            cur = j + 1;
        }
    }
}

/// Joins `parts[0 .. count]` with the one-character separator `sep_text`.
#[verifier::loop_isolation(false)]
pub fn join_prefix(parts: &Vec<String>, count: usize, sep_text: &str, sep: char) -> (r: String)
    requires
        count <= parts@.len(),
        sep_text@ == seq![sep],
    ensures
        r@ == join_chars(parts@.map_values(|t: String| t@).take(count as int), sep),
{
    let ghost views = parts@.map_values(|t: String| t@);
    let mut acc = String::new();
    let mut k: usize = 0;
    assert(views.take(0) =~= Seq::<Seq<char>>::empty());
    while k < count
        invariant
            0 <= k <= count <= parts@.len(),
            acc@ == join_chars(views.take(k as int), sep),
        decreases count - k,
    {
        if k > 0 {
            acc.append(sep_text);
        }
        acc.append(parts[k].as_str());
        proof {
            assert(views.take(k as int + 1) =~= views.take(k as int).push(views[k as int]));
            lemma_join_push(views.take(k as int), sep, views[k as int]);
        }
        k += 1;
    }
    acc
}

/// Lexicographic order on character sequences, by codepoint, with a
/// prefix ordered before its extensions.
pub open spec fn lex_le(a: Seq<char>, b: Seq<char>) -> bool
    decreases a.len(),
{
    if a.len() == 0 {
        true
    } else if b.len() == 0 {
        false
    } else if a[0] == b[0] {
        lex_le(a.drop_first(), b.drop_first())
    } else {
        a[0] < b[0]
    }
}

/// The order is total.
pub proof fn lemma_lex_le_total(a: Seq<char>, b: Seq<char>)
    ensures
        lex_le(a, b) || lex_le(b, a),
    decreases a.len(),
{
    if a.len() > 0 && b.len() > 0 && a[0] == b[0] {
        lemma_lex_le_total(a.drop_first(), b.drop_first());
    }
}

/// The order is transitive.
pub proof fn lemma_lex_le_trans(a: Seq<char>, b: Seq<char>, c: Seq<char>)
    requires
        lex_le(a, b),
        lex_le(b, c),
    ensures
        lex_le(a, c),
    decreases a.len(),
{
    if a.len() > 0 && b.len() > 0 && c.len() > 0 && a[0] == b[0] && b[0] == c[0] {
        lemma_lex_le_trans(a.drop_first(), b.drop_first(), c.drop_first());
    }
}

/// Lexicographic comparison of two strings.
#[verifier::loop_isolation(false)]
pub fn str_le(a: &str, b: &str) -> (r: bool)
    ensures
        r == lex_le(a@, b@),
{
    let na = a.unicode_len();
    let nb = b.unicode_len();
    let mut i: usize = 0;
    assert(a@.skip(0) =~= a@);
    assert(b@.skip(0) =~= b@);
    loop
        invariant
            0 <= i <= na,
            i <= nb,
            na == a@.len(),
            nb == b@.len(),
            lex_le(a@, b@) == lex_le(a@.skip(i as int), b@.skip(i as int)),
            lex_le(b@, a@) == lex_le(b@.skip(i as int), a@.skip(i as int)),
        decreases na - i,
    {
        if i == na {
            assert(a@.skip(i as int).len() == 0);
            return true;
        }
        if i == nb {
            assert(b@.skip(i as int).len() == 0);
            assert(a@.skip(i as int).len() > 0);
            return false;
        }
        let ca = a.get_char(i);
        let cb = b.get_char(i);
        proof {
            assert(a@.skip(i as int)[0] == a@[i as int]);
            assert(b@.skip(i as int)[0] == b@[i as int]);
            assert(a@.skip(i as int).drop_first() =~= a@.skip(i as int + 1));
            assert(b@.skip(i as int).drop_first() =~= b@.skip(i as int + 1));
        }
        if ca == cb {
            i += 1;
        } else {
            return ca < cb;
        }
    }
}

/// Character-by-character string equality.
pub fn str_eq(a: &str, b: &str) -> (r: bool)
    ensures
        r == (a@ == b@),
{
    let na = a.unicode_len();
    let nb = b.unicode_len();
    if na != nb {
        return false;
    }
    let mut i: usize = 0;
    while i < na
        invariant
            0 <= i <= na,
            na == a@.len(),
            na == b@.len(),
            forall|k: int| 0 <= k < i ==> a@[k] == b@[k],
        decreases na - i,
    {
        if a.get_char(i) != b.get_char(i) {
            return false;
        }
        i += 1;
    }
    proof {
        assert(a@ =~= b@);
    }
    true
}

/// Reverses the order of a list of strings.
pub fn reverse_strings(parts: Vec<String>) -> (r: Vec<String>)
    ensures
        r@.map_values(|t: String| t@) == parts@.map_values(|t: String| t@).reverse(),
{
    let n = parts.len();
    let mut out: Vec<String> = Vec::new();
    let mut k: usize = 0;
    while k < n
        invariant
            0 <= k <= n,
            n == parts@.len(),
            out@.len() == k,
            forall|q: int|
                0 <= q < k ==> (#[trigger] out@[q])@ == parts@[n - 1 - q]@,
        decreases n - k,
    {
        let item = parts[n - 1 - k].clone();
        out.push(item);
        k += 1;
    }
    proof {
        assert(out@.map_values(|t: String| t@) =~= parts@.map_values(|t: String| t@).reverse());
    }
    out
}

} // verus!
