use vstd::prelude::*;
use vstd::string::StrSliceExecFns;

verus! {

/// The characters of `s`, one per element.
pub fn chars_of(s: &str) -> (r: Vec<char>)
    ensures
        r@ == s@,
{
    let n = s.unicode_len();
    let mut r: Vec<char> = Vec::new();
    let mut i: usize = 0;
    while i < n
        invariant
            n == s@.len(),
            i <= n,
            r@ == s@.subrange(0, i as int),
        decreases n - i,
    {
        r.push(s.get_char(i));
        i = i + 1;
    }
    assert(r@ =~= s@);
    r
}

/// Whether the text `t` from position `j` on matches the `LIKE` pattern `p`
/// from position `i` on, as MySQL reads a pattern: `%` matches any run of
/// characters, `_` matches one character, a backslash makes the character
/// after it match only itself (a backslash that ends the pattern stands for
/// itself), and every other character matches only itself. Characters
/// compare exactly, as under a binary collation; a case-insensitive
/// collation of the store would also match other letter cases.
pub open spec fn like_from(p: Seq<char>, t: Seq<char>, i: int, j: int) -> bool
    decreases p.len() - i + t.len() - j,
{
    if i < 0 || j < 0 || j > t.len() {
        false
    } else if i >= p.len() {
        j == t.len()
    } else if p[i] == '%' {
        like_from(p, t, i + 1, j) || (j < t.len() && like_from(p, t, i, j + 1))
    } else if j == t.len() {
        false
    } else if p[i] == '\\' && i + 1 < p.len() {
        t[j] == p[i + 1] && like_from(p, t, i + 2, j + 1)
    } else if p[i] == '_' || p[i] == t[j] {
        like_from(p, t, i + 1, j + 1)
    } else {
        false
    }
}

/// The whole text `t` matches the `LIKE` pattern `p`.
pub open spec fn like_matches(p: Seq<char>, t: Seq<char>) -> bool {
    like_from(p, t, 0, 0)
}

/// The pattern of a search for `query`: the query between two `%`.
pub open spec fn like_of(query: Seq<char>) -> Seq<char> {
    seq!['%'] + query + seq!['%']
}

/// Whether the text `t` matches the `LIKE` pattern `p`.
pub fn like_match(p: &Vec<char>, t: &Vec<char>) -> (r: bool)
    ensures
        r == like_matches(p@, t@),
{
    let pl = p.len();
    let tl = t.len();
    let mut row1: Vec<bool> = Vec::new();
    let mut k: usize = 0;
    while k < tl
        invariant
            k <= tl,
            tl == t@.len(),
            pl == p@.len(),
            row1@.len() == k,
            forall|j: int| 0 <= j < k ==> row1@[j] == like_from(p@, t@, pl as int, j),
        decreases tl - k,
    {
        row1.push(false);
        k = k + 1;
    }
    let mut end1 = true;
    let mut row2 = row1.clone();
    let mut end2 = true;
    let mut i: usize = pl;
    while i > 0
        invariant
            i <= pl,
            tl == t@.len(),
            pl == p@.len(),
            row1@.len() == tl,
            forall|j: int| 0 <= j < tl ==> row1@[j] == like_from(p@, t@, i as int, j),
            end1 == like_from(p@, t@, i as int, tl as int),
            i + 1 <= pl ==> row2@.len() == tl,
            i + 1 <= pl ==> forall|j: int|
                0 <= j < tl ==> row2@[j] == like_from(p@, t@, i + 1, j),
            i + 1 <= pl ==> end2 == like_from(p@, t@, i + 1, tl as int),
        decreases i,
    {
        let ii = i - 1;
        let c = p[ii];
        let cur_end = if c == '%' {
            end1
        } else {
            false
        };
        let mut cur: Vec<bool> = Vec::new();
        let mut k: usize = 0;
        while k < tl
            invariant
                k <= tl,
                cur@.len() == k,
            decreases tl - k,
        {
            cur.push(false);
            k = k + 1;
        }
        let mut j: usize = tl;
        let mut right = cur_end;
        while j > 0
            invariant
                ii + 1 == i,
                i <= pl,
                c == p@[ii as int],
                j <= tl,
                tl == t@.len(),
                pl == p@.len(),
                cur@.len() == tl,
                row1@.len() == tl,
                forall|jj: int| 0 <= jj < tl ==> row1@[jj] == like_from(p@, t@, i as int, jj),
                end1 == like_from(p@, t@, i as int, tl as int),
                i + 1 <= pl ==> row2@.len() == tl,
                i + 1 <= pl ==> forall|jj: int|
                    0 <= jj < tl ==> row2@[jj] == like_from(p@, t@, i + 1, jj),
                i + 1 <= pl ==> end2 == like_from(p@, t@, i + 1, tl as int),
                forall|jj: int| j <= jj < tl ==> cur@[jj] == like_from(p@, t@, ii as int, jj),
                right == like_from(p@, t@, ii as int, j as int),
            decreases j,
        {
            let jj = j - 1;
            let v = if c == '%' {
                row1[jj] || right
            } else if c == '\\' && ii + 1 < pl {
                t[jj] == p[ii + 1] && (if jj + 1 < tl {
                    row2[jj + 1]
                } else {
                    end2
                })
            } else if c == '_' || c == t[jj] {
                if jj + 1 < tl {
                    row1[jj + 1]
                } else {
                    end1
                }
            } else {
                false
            };
            assert(v == like_from(p@, t@, ii as int, jj as int));
            cur.set(jj, v);
            right = v;
            j = jj;
        }
        row2 = row1;
        end2 = end1;
        row1 = cur;
        end1 = cur_end;
        i = ii;
    }
    if tl == 0 {
        end1
    } else {
        row1[0]
    }
}

/// The pattern handed to the store's `LIKE` for a search: the query between
/// two `%` wildcards. Wildcard characters inside the query are not escaped,
/// so a `%` or `_` that a caller writes keeps its pattern meaning.
pub fn like_pattern(query: &str) -> (r: String)
    ensures
        r@ == like_of(query@),
{
    let mut r = String::from_str("%");
    r.append(query);
    r.append("%");
    proof {
        reveal_strlit("%");
    }
    r
}

} // verus!
