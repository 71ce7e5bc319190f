//! Byte-string utilities: substring search, prefix/suffix tests, splitting,
//! trimming and decimal formatting. Configuration text and tool output are
//! handled as byte strings throughout the crate.

use vstd::prelude::*;

verus! {

/// The pattern `pat` occurs in `text` at position `i`.
pub open spec fn is_match_at(text: Seq<u8>, pat: Seq<u8>, i: int) -> bool {
    &&& 0 <= i
    &&& i + pat.len() <= text.len()
    &&& forall|j: int| 0 <= j < pat.len() ==> text[i + j] == pat[j]
}

/// The pattern `pat` occurs somewhere in `text`.
pub open spec fn contains_seq(text: Seq<u8>, pat: Seq<u8>) -> bool {
    exists|i: int| is_match_at(text, pat, i)
}

/// Whether `pat` occurs in `text` starting exactly at `i`.
pub fn match_at(text: &[u8], pat: &[u8], i: usize) -> (r: bool)
    requires
        i <= text@.len(),
    ensures
        r == is_match_at(text@, pat@, i as int),
{
    let n = text.len();
    if pat.len() > n - i {
        return false;
    }
    let mut j: usize = 0;
    while j < pat.len()
        invariant
            0 <= j <= pat@.len(),
            i <= text@.len(),
            i + pat@.len() <= text@.len(),
            text@.len() == n,
            forall|k: int| 0 <= k < j ==> text@[i + k] == pat@[k],
        decreases pat@.len() - j,
    {
        let idx: usize = i + j;
        if text[idx] != pat[j] {
            return false;
        }
        j = j + 1;
    }
    true
}

/// Substring search over bytes.
pub fn contains_subslice(text: &[u8], pat: &[u8]) -> (r: bool)
    ensures
        r == contains_seq(text@, pat@),
{
    if pat.len() > text.len() {
        assert(forall|i: int| !is_match_at(text@, pat@, i));
        return false;
    }
    let mut i: usize = 0;
    while i <= text.len() - pat.len()
        invariant
            pat@.len() <= text@.len(),
            0 <= i <= text@.len() - pat@.len() + 1,
            forall|k: int| 0 <= k < i ==> !is_match_at(text@, pat@, k),
        decreases text@.len() - pat@.len() + 1 - i,
    {
        if match_at(text, pat, i) {
            return true;
        }
        i = i + 1;
    }
    assert(forall|k: int| !is_match_at(text@, pat@, k));
    false
}

/// `text` begins with `pat`.
pub fn starts_with(text: &[u8], pat: &[u8]) -> (r: bool)
    ensures
        r == is_match_at(text@, pat@, 0),
{
    match_at(text, pat, 0)
}

/// `text` ends with `pat`.
pub fn ends_with(text: &[u8], pat: &[u8]) -> (r: bool)
    ensures
        r == (pat@.len() <= text@.len() && is_match_at(
            text@,
            pat@,
            text@.len() - pat@.len(),
        )),
{
    if pat.len() > text.len() {
        return false;
    }
    match_at(text, pat, text.len() - pat.len())
}

/// Byte-wise equality of two slices.
pub fn bytes_eq(a: &[u8], b: &[u8]) -> (r: bool)
    ensures
        r == (a@ == b@),
{
    if a.len() != b.len() {
        return false;
    }
    let mut i: usize = 0;
    while i < a.len()
        invariant
            a@.len() == b@.len(),
            0 <= i <= a@.len(),
            forall|k: int| 0 <= k < i ==> a@[k] == b@[k],
        decreases a@.len() - i,
    {
        if a[i] != b[i] {
            return false;
        }
        i = i + 1;
    }
    proof {
        assert(a@ =~= b@);
    }
    true
}

/// A fresh copy of the byte range `[from, to)` of `s`.
pub fn sub_vec(s: &[u8], from: usize, to: usize) -> (r: Vec<u8>)
    requires
        0 <= from <= to <= s@.len(),
    ensures
        r@ == s@.subrange(from as int, to as int),
{
    let mut r: Vec<u8> = Vec::new();
    let mut i: usize = from;
    while i < to
        invariant
            from <= i <= to <= s@.len(),
            r@ == s@.subrange(from as int, i as int),
        decreases to - i,
    {
        r.push(s[i]);
        proof {
            assert(r@ =~= s@.subrange(from as int, i + 1 as int));
        }
        i = i + 1;
    }
    r
}

/// Concatenation of two byte strings into a fresh vector.
pub fn concat_bytes(a: &[u8], b: &[u8]) -> (r: Vec<u8>)
    ensures
        r@ == a@ + b@,
{
    let mut r = vstd::slice::slice_to_vec(a);
    r.extend_from_slice(b);
    r
}

/// The view of a vector of byte strings.
pub open spec fn views_of(v: Seq<Vec<u8>>) -> Seq<Seq<u8>> {
    v.map_values(|e: Vec<u8>| e@)
}

/// Splitting a byte string at every occurrence of `sep`. A string without
/// the separator is one segment; each separator ends a segment, so a
/// trailing separator yields a final empty segment.
pub open spec fn split_seq(s: Seq<u8>, sep: u8) -> Seq<Seq<u8>>
    decreases s.len(),
{
    if s.len() == 0 {
        seq![Seq::<u8>::empty()]
    } else if s[0] == sep {
        seq![Seq::<u8>::empty()] + split_seq(s.drop_first(), sep)
    } else {
        let rest = split_seq(s.drop_first(), sep);
        seq![seq![s[0]] + rest[0]] + rest.drop_first()
    }
}

pub proof fn lemma_split_seq_nonempty(s: Seq<u8>, sep: u8)
    ensures
        split_seq(s, sep).len() >= 1,
    decreases s.len(),
{
    if s.len() > 0 {
        lemma_split_seq_nonempty(s.drop_first(), sep);
    }
}

/// Split a byte string at every occurrence of `sep`.
pub fn split_bytes(s: &[u8], sep: u8) -> (r: Vec<Vec<u8>>)
    ensures
        views_of(r@) == split_seq(s@, sep),
{
    let n = s.len();
    let mut acc: Vec<Vec<u8>> = Vec::new();
    let mut cur: Vec<u8> = Vec::new();
    let mut i: usize = 0;
    proof {
        lemma_split_seq_nonempty(s@, sep);
        assert(s@.subrange(0, n as int) =~= s@);
        let sp = split_seq(s@, sep);
        assert(views_of(acc@) =~= Seq::<Seq<u8>>::empty());
        assert(cur@ + sp[0] =~= sp[0]);
        assert(Seq::<Seq<u8>>::empty() + seq![sp[0]] + sp.drop_first() =~= sp);
    }
    while i < n
        invariant
            0 <= i <= n,
            s@.len() == n,
            split_seq(s@.subrange(i as int, n as int), sep).len() >= 1,
            split_seq(s@, sep) == views_of(acc@) + seq![
                cur@ + split_seq(s@.subrange(i as int, n as int), sep)[0],
            ] + split_seq(s@.subrange(i as int, n as int), sep).drop_first(),
        decreases n - i,
    {
        let ghost suffix = s@.subrange(i as int, n as int);
        let ghost suffix2 = s@.subrange(i + 1 as int, n as int);
        proof {
            assert(suffix.drop_first() =~= suffix2);
            lemma_split_seq_nonempty(suffix2, sep);
        }
        let ghost sp = split_seq(suffix, sep);
        let ghost sp2 = split_seq(suffix2, sep);
        let ghost acc0 = acc@;
        let ghost cur0 = cur@;
        if s[i] == sep {
            proof {
                assert(sp =~= seq![Seq::<u8>::empty()] + sp2);
                assert(sp[0] =~= Seq::<u8>::empty());
                assert(sp.drop_first() =~= sp2);
                assert(cur0 + sp[0] =~= cur0);
            }
            acc.push(cur);
            cur = Vec::new();
            proof {
                assert(views_of(acc@) =~= views_of(acc0).push(cur0));
                assert(views_of(acc0) + seq![cur0 + sp[0]] + sp.drop_first()
                    =~= views_of(acc@) + seq![cur@ + sp2[0]] + sp2.drop_first());
            }
        } else {
            proof {
                assert(sp =~= seq![seq![suffix[0]] + sp2[0]] + sp2.drop_first());
                assert(sp[0] == seq![s@[i as int]] + sp2[0]);
                assert(sp.drop_first() =~= sp2.drop_first());
            }
            cur.push(s[i]);
            proof {
                assert(cur@ + sp2[0] =~= cur0 + sp[0]);
            }
        }
        i = i + 1;
    }
    let ghost accn = acc@;
    let ghost curn = cur@;
    proof {
        let suffix = s@.subrange(n as int, n as int);
        assert(suffix =~= Seq::<u8>::empty());
        assert(split_seq(suffix, sep) =~= seq![Seq::<u8>::empty()]);
        assert(curn + Seq::<u8>::empty() =~= curn);
    }
    acc.push(cur);
    proof {
        assert(views_of(acc@) =~= views_of(accn).push(curn));
        assert(views_of(acc@) =~= split_seq(s@, sep));
    }
    acc
}

/// A byte string is nonempty.
pub open spec fn is_nonempty(s: Seq<u8>) -> bool {
    s.len() != 0
}

/// Split at `sep` and keep only the nonempty segments, so that runs of
/// separators act as a single separator.
pub open spec fn fields_seq(s: Seq<u8>, sep: u8) -> Seq<Seq<u8>> {
    split_seq(s, sep).filter(|l: Seq<u8>| is_nonempty(l))
}

/// The nonempty segments of `s` split at `sep`.
pub fn split_fields(s: &[u8], sep: u8) -> (r: Vec<Vec<u8>>)
    ensures
        views_of(r@) == fields_seq(s@, sep),
{
    let parts = split_bytes(s, sep);
    let mut r: Vec<Vec<u8>> = Vec::new();
    let mut i: usize = 0;
    proof {
        assert(views_of(r@) =~= Seq::<Seq<u8>>::empty());
        assert(views_of(parts@).take(0) =~= Seq::<Seq<u8>>::empty());
        assert(Seq::<Seq<u8>>::empty().filter(|l: Seq<u8>| is_nonempty(l))
            =~= Seq::<Seq<u8>>::empty()) by {
            reveal(Seq::filter);
        }
    }
    while i < parts.len()
        invariant
            0 <= i <= parts@.len(),
            views_of(r@) == views_of(parts@).take(i as int).filter(
                |l: Seq<u8>| is_nonempty(l),
            ),
        decreases parts@.len() - i,
    {
        let ghost r0 = r@;
        let ghost pre = views_of(parts@).take(i as int);
        if parts[i].len() != 0 {
            let seg = sub_vec(parts[i].as_slice(), 0, parts[i].len());
            proof {
                assert(seg@ =~= parts@[i as int]@);
            }
            r.push(seg);
        }
        proof {
            pre.lemma_filter_push(parts@[i as int]@, |l: Seq<u8>| is_nonempty(l));
            assert(pre.push(parts@[i as int]@) =~= views_of(parts@).take(
                i + 1 as int,
            ));
            if is_nonempty(parts@[i as int]@) {
                assert(views_of(r@) =~= views_of(r0).push(parts@[i as int]@));
            }
        }
        i = i + 1;
    }
    proof {
        assert(views_of(parts@).take(parts@.len() as int) =~= views_of(parts@));
    }
    r
}

/// Joining byte strings with a single separator byte between them.
pub open spec fn join_seq(parts: Seq<Seq<u8>>, sep: u8) -> Seq<u8>
    decreases parts.len(),
{
    if parts.len() == 0 {
        Seq::empty()
    } else if parts.len() == 1 {
        parts[0]
    } else {
        join_seq(parts.drop_last(), sep) + seq![sep] + parts.last()
    }
}

/// Join the byte strings of `parts` from index `from` on, separated by `sep`.
pub fn join_from(parts: &Vec<Vec<u8>>, from: usize, sep: u8) -> (r: Vec<u8>)
    requires
        from <= parts@.len(),
    ensures
        r@ == join_seq(views_of(parts@).subrange(from as int, parts@.len() as int), sep),
{
    let mut r: Vec<u8> = Vec::new();
    let mut i: usize = from;
    proof {
        assert(views_of(parts@).subrange(from as int, from as int)
            =~= Seq::<Seq<u8>>::empty());
        assert(r@ =~= join_seq(Seq::<Seq<u8>>::empty(), sep));
    }
    while i < parts.len()
        invariant
            from <= i <= parts@.len(),
            r@ == join_seq(views_of(parts@).subrange(from as int, i as int), sep),
        decreases parts@.len() - i,
    {
        let ghost pre = views_of(parts@).subrange(from as int, i as int);
        let ghost post = views_of(parts@).subrange(from as int, i + 1 as int);
        if i > from {
            r.push(sep);
        }
        r.extend_from_slice(parts[i].as_slice());
        proof {
            assert(post.drop_last() =~= pre);
            assert(post.last() == parts@[i as int]@);
            if i > from {
                assert(r@ =~= join_seq(pre, sep) + seq![sep] + parts@[i as int]@);
            } else {
                assert(post =~= seq![parts@[i as int]@]);
                assert(r@ =~= parts@[i as int]@);
            }
        }
        i = i + 1;
    }
    r
}

/// The position of the first occurrence of `b` in `s`, if any.
pub open spec fn first_index(s: Seq<u8>, b: u8) -> Option<int>
    decreases s.len(),
{
    if s.len() == 0 {
        None
    } else if s[0] == b {
        Some(0int)
    } else {
        match first_index(s.drop_first(), b) {
            None => None,
            Some(j) => Some(j + 1),
        }
    }
}

pub proof fn lemma_first_index_at(s: Seq<u8>, b: u8, j: int)
    requires
        0 <= j < s.len(),
        s[j] == b,
        forall|k: int| 0 <= k < j ==> s[k] != b,
    ensures
        first_index(s, b) == Some(j),
    decreases j,
{
    if j > 0 {
        assert(forall|k: int|
            0 <= k < j - 1 ==> s.drop_first()[k] == s[k + 1] && s[k + 1] != b);
        lemma_first_index_at(s.drop_first(), b, j - 1);
    }
}

pub proof fn lemma_first_index_none(s: Seq<u8>, b: u8)
    requires
        forall|k: int| 0 <= k < s.len() ==> s[k] != b,
    ensures
        first_index(s, b) is None,
    decreases s.len(),
{
    if s.len() > 0 {
        lemma_first_index_none(s.drop_first(), b);
    }
}

/// The parts of `s` on either side of the first occurrence of `sep`.
pub open spec fn split_once_seq(s: Seq<u8>, sep: u8) -> Option<(Seq<u8>, Seq<u8>)> {
    match first_index(s, sep) {
        None => None,
        Some(j) => Some((s.subrange(0, j), s.subrange(j + 1, s.len() as int))),
    }
}

/// Split at the first occurrence of `sep`: the bytes before it and the bytes
/// after it, or `None` when `sep` does not occur.
pub fn split_once(s: &[u8], sep: u8) -> (r: Option<(Vec<u8>, Vec<u8>)>)
    ensures
        match r {
            None => split_once_seq(s@, sep) is None,
            Some((k, v)) => split_once_seq(s@, sep) == Some((k@, v@)),
        },
{
    let n = s.len();
    let mut j: usize = 0;
    while j < n
        invariant
            0 <= j <= n,
            s@.len() == n,
            forall|k: int| 0 <= k < j ==> s@[k] != sep,
        decreases n - j,
    {
        if s[j] == sep {
            proof {
                lemma_first_index_at(s@, sep, j as int);
            }
            let k = sub_vec(s, 0, j);
            let v = sub_vec(s, j + 1, n);
            return Some((k, v));
        }
        j = j + 1;
    }
    proof {
        lemma_first_index_none(s@, sep);
    }
    None
}

/// An ASCII whitespace byte: space, tab, line feed or carriage return.
pub open spec fn is_ws(b: u8) -> bool {
    b == 32 || b == 9 || b == 10 || b == 13
}

/// `s` without leading whitespace.
pub open spec fn trim_start_seq(s: Seq<u8>) -> Seq<u8>
    decreases s.len(),
{
    if s.len() > 0 && is_ws(s[0]) {
        trim_start_seq(s.drop_first())
    } else {
        s
    }
}

/// `s` without trailing whitespace.
pub open spec fn trim_end_seq(s: Seq<u8>) -> Seq<u8>
    decreases s.len(),
{
    if s.len() > 0 && is_ws(s.last()) {
        trim_end_seq(s.drop_last())
    } else {
        s
    }
}

/// `s` without leading and trailing whitespace.
pub open spec fn trimmed(s: Seq<u8>) -> Seq<u8> {
    trim_end_seq(trim_start_seq(s))
}

proof fn lemma_trim_start_skip(s: Seq<u8>, i: int)
    requires
        0 <= i <= s.len(),
        forall|k: int| 0 <= k < i ==> is_ws(s[k]),
    ensures
        trim_start_seq(s) == trim_start_seq(s.subrange(i, s.len() as int)),
    decreases i,
{
    if i == 0 {
        assert(s.subrange(0, s.len() as int) =~= s);
    } else {
        assert(s.drop_first() =~= s.subrange(1, s.len() as int));
        lemma_trim_start_skip(s.subrange(1, s.len() as int), i - 1);
        assert(s.subrange(1, s.len() as int).subrange(i - 1, s.len() - 1)
            =~= s.subrange(i, s.len() as int));
    }
}

proof fn lemma_trim_end_skip(s: Seq<u8>, b: int)
    requires
        0 <= b <= s.len(),
        forall|k: int| b <= k < s.len() ==> is_ws(s[k]),
    ensures
        trim_end_seq(s) == trim_end_seq(s.subrange(0, b)),
    decreases s.len() - b,
{
    if b == s.len() {
        assert(s.subrange(0, s.len() as int) =~= s);
    } else {
        assert(s.drop_last() =~= s.subrange(0, s.len() - 1));
        lemma_trim_end_skip(s.subrange(0, s.len() - 1), b);
        assert(s.subrange(0, s.len() - 1).subrange(0, b) =~= s.subrange(0, b));
    }
}

/// A copy of `s` with leading and trailing ASCII whitespace removed.
pub fn trim_bytes(s: &[u8]) -> (r: Vec<u8>)
    ensures
        r@ == trimmed(s@),
{
    let n = s.len();
    let mut a: usize = 0;
    while a < n && (s[a] == 32 || s[a] == 9 || s[a] == 10 || s[a] == 13)
        invariant
            0 <= a <= n,
            s@.len() == n,
            forall|k: int| 0 <= k < a ==> is_ws(s@[k]),
        decreases n - a,
    {
        a = a + 1;
    }
    proof {
        lemma_trim_start_skip(s@, a as int);
        let suffix = s@.subrange(a as int, n as int);
        assert(trim_start_seq(suffix) == suffix);
    }
    let mut b: usize = n;
    while b > a && (s[b - 1] == 32 || s[b - 1] == 9 || s[b - 1] == 10 || s[b - 1] == 13)
        invariant
            a <= b <= n,
            s@.len() == n,
            forall|k: int| b <= k < n ==> is_ws(s@[k]),
        decreases b,
    {
        b = b - 1;
    }
    proof {
        let suffix = s@.subrange(a as int, n as int);
        assert(forall|k: int|
            b - a <= k < suffix.len() ==> is_ws(suffix[k]));
        lemma_trim_end_skip(suffix, b - a);
        assert(suffix.subrange(0, b - a) =~= s@.subrange(a as int, b as int));
        let mid = s@.subrange(a as int, b as int);
        assert(trim_end_seq(mid) == mid);
    }
    sub_vec(s, a, b)
}

/// The position of the last occurrence of `b` in `s`, if any.
pub open spec fn last_index_of(s: Seq<u8>, b: u8) -> Option<int>
    decreases s.len(),
{
    if s.len() == 0 {
        None
    } else if s.last() == b {
        Some(s.len() - 1)
    } else {
        last_index_of(s.drop_last(), b)
    }
}

pub proof fn lemma_last_index_at(s: Seq<u8>, b: u8, j: int)
    requires
        0 <= j < s.len(),
        s[j] == b,
        forall|k: int| j < k < s.len() ==> s[k] != b,
    ensures
        last_index_of(s, b) == Some(j),
    decreases s.len(),
{
    if j < s.len() - 1 {
        assert(s.last() != b);
        assert(forall|k: int| j < k < s.drop_last().len() ==> s.drop_last()[k] != b);
        lemma_last_index_at(s.drop_last(), b, j);
    }
}

pub proof fn lemma_last_index_none(s: Seq<u8>, b: u8)
    requires
        forall|k: int| 0 <= k < s.len() ==> s[k] != b,
    ensures
        last_index_of(s, b) is None,
    decreases s.len(),
{
    if s.len() > 0 {
        lemma_last_index_none(s.drop_last(), b);
    }
}

/// Lexicographic order over byte strings, a prefix before its extensions.
pub open spec fn lex_le(a: Seq<u8>, b: Seq<u8>) -> bool
    decreases a.len(),
{
    if a.len() == 0 {
        true
    } else if b.len() == 0 {
        false
    } else if a[0] < b[0] {
        true
    } else if a[0] > b[0] {
        false
    } else {
        lex_le(a.drop_first(), b.drop_first())
    }
}

/// The lexicographic order is total.
pub proof fn lemma_lex_le_total(a: Seq<u8>, b: Seq<u8>)
    ensures
        lex_le(a, b) || lex_le(b, a),
    decreases a.len(),
{
    if a.len() > 0 && b.len() > 0 && a[0] == b[0] {
        lemma_lex_le_total(a.drop_first(), b.drop_first());
    }
}

/// The lexicographic order is transitive.
pub proof fn lemma_lex_le_trans(a: Seq<u8>, b: Seq<u8>, c: Seq<u8>)
    requires
        lex_le(a, b),
        lex_le(b, c),
    ensures
        lex_le(a, c),
    decreases a.len(),
{
    if a.len() > 0 && b.len() > 0 && c.len() > 0 && a[0] == b[0] && b[0] == c[0] {
        lemma_lex_le_trans(a.drop_first(), b.drop_first(), c.drop_first());
    }
}

proof fn lemma_lex_le_skip(a: Seq<u8>, b: Seq<u8>, i: int)
    requires
        0 <= i <= a.len(),
        i <= b.len(),
        forall|k: int| 0 <= k < i ==> a[k] == b[k],
    ensures
        lex_le(a, b) == lex_le(
            a.subrange(i, a.len() as int),
            b.subrange(i, b.len() as int),
        ),
    decreases i,
{
    if i == 0 {
        assert(a.subrange(0, a.len() as int) =~= a);
        assert(b.subrange(0, b.len() as int) =~= b);
    } else {
        assert(a.len() > 0 && b.len() > 0 && a[0] == b[0]);
        assert(a.drop_first() =~= a.subrange(1, a.len() as int));
        assert(b.drop_first() =~= b.subrange(1, b.len() as int));
        lemma_lex_le_skip(a.drop_first(), b.drop_first(), i - 1);
        assert(a.drop_first().subrange(i - 1, a.len() - 1) =~= a.subrange(i, a.len() as int));
        assert(b.drop_first().subrange(i - 1, b.len() - 1) =~= b.subrange(i, b.len() as int));
    }
}

/// Whether `a` comes no later than `b` in lexicographic order.
pub fn bytes_le(a: &[u8], b: &[u8]) -> (r: bool)
    ensures
        r == lex_le(a@, b@),
{
    let an = a.len();
    let bn = b.len();
    let mut i: usize = 0;
    while i < an && i < bn
        invariant
            0 <= i <= an,
            i <= bn,
            a@.len() == an,
            b@.len() == bn,
            forall|k: int| 0 <= k < i ==> a@[k] == b@[k],
        decreases an - i,
    {
        if a[i] < b[i] {
            proof {
                lemma_lex_le_skip(a@, b@, i as int);
            }
            return true;
        }
        if a[i] > b[i] {
            proof {
                lemma_lex_le_skip(a@, b@, i as int);
            }
            return false;
        }
        i = i + 1;
    }
    proof {
        lemma_lex_le_skip(a@, b@, i as int);
    }
    an <= bn
}

/// An ASCII decimal digit.
pub open spec fn is_dec_digit(b: u8) -> bool {
    48 <= b <= 57
}

/// Every byte of `s` is a decimal digit.
pub open spec fn all_digits(s: Seq<u8>) -> bool {
    forall|i: int| 0 <= i < s.len() ==> is_dec_digit(#[trigger] s[i])
}

/// The number denoted by a digit string, most significant digit first.
pub open spec fn dec_value(s: Seq<u8>) -> nat
    decreases s.len(),
{
    if s.len() == 0 {
        0
    } else {
        dec_value(s.drop_last()) * 10 + (s.last() - 48) as nat
    }
}

proof fn lemma_dec_value_monotonic(s: Seq<u8>, i: int, j: int)
    requires
        0 <= i <= j <= s.len(),
        all_digits(s),
    ensures
        dec_value(s.take(j)) >= dec_value(s.take(i)),
    decreases j - i,
{
    if i < j {
        lemma_dec_value_monotonic(s, i, j - 1);
        assert(s.take(j).drop_last() =~= s.take(j - 1));
        assert(s.take(j).last() == s[j - 1]);
    }
}

/// Parse a number from a digit string: defined exactly for a nonempty string
/// of decimal digits whose value fits.
pub fn parse_u64(s: &[u8]) -> (r: Option<u64>)
    ensures
        match r {
            Some(v) => s@.len() > 0 && all_digits(s@) && dec_value(s@) == v as nat,
            None => s@.len() == 0 || !all_digits(s@) || dec_value(s@) > u64::MAX,
        },
{
    let n = s.len();
    if n == 0 {
        return None;
    }
    let mut acc: u64 = 0;
    let mut i: usize = 0;
    proof {
        assert(s@.take(0) =~= Seq::<u8>::empty());
    }
    while i < n
        invariant
            0 <= i <= n,
            s@.len() == n,
            all_digits(s@.take(i as int)),
            acc as nat == dec_value(s@.take(i as int)),
        decreases n - i,
    {
        let b = s[i];
        if b < 48 || b > 57 {
            proof {
                assert(!is_dec_digit(s@[i as int]));
            }
            return None;
        }
        let v: u128 = acc as u128 * 10 + (b - 48) as u128;
        proof {
            assert(s@.take(i + 1 as int).drop_last() =~= s@.take(i as int));
            assert(s@.take(i + 1 as int).last() == s@[i as int]);
            assert(dec_value(s@.take(i + 1 as int)) == v as nat);
        }
        if v > u64::MAX as u128 {
            proof {
                if all_digits(s@) {
                    lemma_dec_value_monotonic(s@, i + 1, n as int);
                    assert(s@.take(n as int) =~= s@);
                }
            }
            return None;
        }
        acc = v as u64;
        i = i + 1;
    }
    proof {
        assert(s@.take(n as int) =~= s@);
    }
    Some(acc)
}

/// `s` ends with `suf`.
pub open spec fn ends_with_seq(s: Seq<u8>, suf: Seq<u8>) -> bool {
    suf.len() <= s.len() && s.subrange(s.len() - suf.len(), s.len() as int) == suf
}

proof fn lemma_ends_with_match(s: Seq<u8>, suf: Seq<u8>)
    ensures
        ends_with_seq(s, suf) <==> (suf.len() <= s.len() && is_match_at(
            s,
            suf,
            s.len() - suf.len(),
        )),
{
    if suf.len() <= s.len() {
        let tail = s.subrange(s.len() - suf.len(), s.len() as int);
        if is_match_at(s, suf, s.len() - suf.len()) {
            assert(tail =~= suf);
        }
        if tail == suf {
            assert(forall|j: int| 0 <= j < suf.len() ==> s[s.len() - suf.len() + j] == tail[j]);
        }
    }
}

/// `s` with every trailing repetition of `suf` removed.
pub open spec fn strip_suffix_rec(s: Seq<u8>, suf: Seq<u8>) -> Seq<u8>
    decreases s.len(),
{
    if suf.len() > 0 && ends_with_seq(s, suf) {
        strip_suffix_rec(s.subrange(0, s.len() - suf.len()), suf)
    } else {
        s
    }
}

/// A copy of `s` with every trailing repetition of `suf` removed.
pub fn strip_suffix_bytes(s: &[u8], suf: &[u8]) -> (r: Vec<u8>)
    ensures
        r@ == strip_suffix_rec(s@, suf@),
{
    if suf.len() == 0 {
        return vstd::slice::slice_to_vec(s);
    }
    let mut v = vstd::slice::slice_to_vec(s);
    while ends_with(v.as_slice(), suf)
        invariant
            suf@.len() > 0,
            strip_suffix_rec(s@, suf@) == strip_suffix_rec(v@, suf@),
        decreases v@.len(),
    {
        let ghost v0 = v@;
        proof {
            lemma_ends_with_match(v0, suf@);
        }
        let newlen = v.len() - suf.len();
        v.truncate(newlen);
        proof {
            assert(v@ =~= v0.subrange(0, v0.len() - suf@.len()));
        }
    }
    proof {
        lemma_ends_with_match(v@, suf@);
    }
    v
}

/// The decimal digits of `n`, most significant first.
pub open spec fn dec_digits(n: nat) -> Seq<u8>
    decreases n,
{
    if n < 10 {
        seq![(48 + n) as u8]
    } else {
        dec_digits(n / 10) + seq![(48 + n % 10) as u8]
    }
}

/// Format `n` in decimal.
pub fn u64_to_dec(n: u64) -> (r: Vec<u8>)
    ensures
        r@ == dec_digits(n as nat),
    decreases n,
{
    if n < 10 {
        let mut r: Vec<u8> = Vec::new();
        r.push(48 + n as u8);
        proof {
            assert(r@ =~= dec_digits(n as nat));
        }
        r
    } else {
        let mut r = u64_to_dec(n / 10);
        r.push(48 + (n % 10) as u8);
        proof {
            assert(r@ =~= dec_digits(n as nat));
        }
        r
    }
}

} // verus!
