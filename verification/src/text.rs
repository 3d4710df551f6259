//! Character-level text utilities: whitespace tokenization, substring
//! search, and space-joining, with full functional specifications.

use vstd::prelude::*;

verus! {

/// The whitespace characters on which protocol lines are tokenized.
pub open spec fn spec_is_ws(c: char) -> bool {
    c == ' ' || c == '\t' || c == '\r' || c == '\n'
}

/// Executable whitespace test.
pub fn is_ws(c: char) -> (r: bool)
    ensures
        r == spec_is_ws(c),
{
    c == ' ' || c == '\t' || c == '\r' || c == '\n'
}

/// The longest prefix of `s` made of non-whitespace characters.
pub open spec fn spec_token_prefix(s: Seq<char>) -> Seq<char>
    decreases s.len(),
{
    if s.len() == 0 || spec_is_ws(s[0]) {
        Seq::empty()
    } else {
        seq![s[0]] + spec_token_prefix(s.drop_first())
    }
}

/// The token prefix is never longer than the string, and is non-empty
/// exactly when the string starts with a non-whitespace character.
pub proof fn lemma_token_prefix_len(s: Seq<char>)
    ensures
        spec_token_prefix(s).len() <= s.len(),
        s.len() > 0 && !spec_is_ws(s[0]) ==> spec_token_prefix(s).len() >= 1,
    decreases s.len(),
{
    if s.len() > 0 && !spec_is_ws(s[0]) {
        lemma_token_prefix_len(s.drop_first());
    }
}

/// The whitespace-delimited tokens of `s`, in order: maximal runs of
/// non-whitespace characters.
pub open spec fn spec_tokens(s: Seq<char>) -> Seq<Seq<char>>
    decreases s.len(),
    via spec_tokens_decreases
{
    if s.len() == 0 {
        Seq::empty()
    } else if spec_is_ws(s[0]) {
        spec_tokens(s.drop_first())
    } else {
        seq![spec_token_prefix(s)] + spec_tokens(s.skip(spec_token_prefix(s).len() as int))
    }
}

#[via_fn]
proof fn spec_tokens_decreases(s: Seq<char>) {
    lemma_token_prefix_len(s);
}

/// A run of non-whitespace characters that is either closed off by a
/// whitespace character or runs to the end of the string is exactly the
/// token prefix.
proof fn lemma_token_prefix_of(s: Seq<char>, k: int)
    requires
        0 < k <= s.len(),
        forall|j: int| 0 <= j < k ==> !spec_is_ws(s[j]),
        k == s.len() || spec_is_ws(s[k]),
    ensures
        spec_token_prefix(s) == s.take(k),
    decreases k,
{
    assert(!spec_is_ws(s[0]));
    if k == 1 {
        assert(spec_token_prefix(s.drop_first()) =~= Seq::<char>::empty());
        assert(seq![s[0]] + spec_token_prefix(s.drop_first()) =~= s.take(1));
    } else {
        let d = s.drop_first();
        assert(forall|j: int| 0 <= j < k - 1 ==> !spec_is_ws(d[j]));
        lemma_token_prefix_of(d, k - 1);
        assert(seq![s[0]] + d.take(k - 1) =~= s.take(k));
    }
}

/// Splits `s` into the whitespace-delimited tokens it contains.
pub fn tokenize(s: &str) -> (r: Vec<String>)
    ensures
        r.deep_view() == spec_tokens(s@),
{
    let n = s.unicode_len();
    let mut toks: Vec<String> = Vec::new();
    let mut pos: usize = 0;
    proof {
        assert(toks.deep_view() =~~= Seq::<Seq<char>>::empty());
        assert(s@.skip(0) =~= s@);
        assert(Seq::<Seq<char>>::empty() + spec_tokens(s@) =~~= spec_tokens(s@));
    }
    while pos < n
        invariant
            pos <= n,
            n == s@.len(),
            spec_tokens(s@) == toks.deep_view() + spec_tokens(s@.skip(pos as int)),
        decreases n - pos,
    {
        if is_ws(s.get_char(pos)) {
            proof {
                assert(s@.skip(pos as int).drop_first() =~= s@.skip(pos as int + 1));
            }
            pos += 1;
        } else {
            let start = pos;
            pos += 1;
            while pos < n && !is_ws(s.get_char(pos))
                invariant
                    start < pos <= n,
                    n == s@.len(),
                    forall|j: int| start <= j < pos ==> !spec_is_ws(s@[j]),
                decreases n - pos,
            {
                pos += 1;
            }
            let tok = String::from_str(s.substring_char(start, pos));
            proof {
                let u = s@.skip(start as int);
                let k = pos - start;
                assert(forall|j: int| 0 <= j < k ==> u[j] == s@[start + j] && !spec_is_ws(
                    s@[start + j],
                ));
                lemma_token_prefix_of(u, k);
                assert(u.take(k) =~= s@.subrange(start as int, pos as int));
                assert(u.skip(k) =~= s@.skip(pos as int));
                assert(spec_tokens(u) == seq![s@.subrange(start as int, pos as int)]
                    + spec_tokens(s@.skip(pos as int)));
            }
            let ghost old_deep = toks.deep_view();
            toks.push(tok);
            proof {
                let t = s@.subrange(start as int, pos as int);
                assert(toks.deep_view() =~~= old_deep.push(t));
                assert(old_deep + (seq![t] + spec_tokens(s@.skip(pos as int))) =~~= old_deep.push(
                    t,
                ) + spec_tokens(s@.skip(pos as int)));
            }
        }
    }
    proof {
        assert(s@.skip(n as int) =~= Seq::<char>::empty());
        assert(spec_tokens(Seq::<char>::empty()) =~= Seq::<Seq<char>>::empty());
        assert(toks.deep_view() + Seq::<Seq<char>>::empty() =~~= toks.deep_view());
    }
    toks
}

/// The position of the first occurrence of `c` in `s`, if any.
pub open spec fn spec_find_char(s: Seq<char>, c: char) -> Option<int>
    decreases s.len(),
{
    if s.len() == 0 {
        None
    } else if s[0] == c {
        Some(0int)
    } else {
        match spec_find_char(s.drop_first(), c) {
            Some(i) => Some(i + 1),
            None => None,
        }
    }
}

/// `spec_find_char` returns the first occurrence: an in-range position
/// holding `c` with no occurrence of `c` before it, or `None` when `c`
/// does not occur at all.
pub proof fn lemma_find_char_first(s: Seq<char>, c: char)
    ensures
        match spec_find_char(s, c) {
            Some(i) => 0 <= i < s.len() && s[i] == c && forall|j: int| 0 <= j < i ==> s[j] != c,
            None => forall|j: int| 0 <= j < s.len() ==> s[j] != c,
        },
    decreases s.len(),
{
    if s.len() > 0 && s[0] != c {
        lemma_find_char_first(s.drop_first(), c);
        assert(forall|j: int| 1 <= j < s.len() ==> s[j] == s.drop_first()[j - 1]);
    }
}

/// Scans `s` for the first occurrence of `c`.
pub fn find_char(s: &str, c: char) -> (r: Option<usize>)
    ensures
        match r {
            Some(i) => spec_find_char(s@, c) == Some(i as int),
            None => spec_find_char(s@, c) is None,
        },
{
    let n = s.unicode_len();
    let mut i: usize = 0;
    while i < n
        invariant
            i <= n,
            n == s@.len(),
            forall|j: int| 0 <= j < i ==> s@[j] != c,
        decreases n - i,
    {
        if s.get_char(i) == c {
            proof {
                lemma_find_char_first(s@, c);
            }
            return Some(i);
        }
        i += 1;
    }
    proof {
        lemma_find_char_first(s@, c);
    }
    None
}

/// Whether a trailing-parameter boundary — a space followed by a colon —
/// stands at position `i` of `s` (`i` indexing the space).
pub open spec fn spec_is_boundary_at(s: Seq<char>, i: int) -> bool {
    0 <= i && i + 1 < s.len() && s[i] == ' ' && s[i + 1] == ':'
}

/// The position of the first trailing-parameter boundary of `s`, if any.
pub open spec fn spec_boundary(s: Seq<char>) -> Option<int>
    decreases s.len(),
{
    if s.len() < 2 {
        None
    } else if s[0] == ' ' && s[1] == ':' {
        Some(0int)
    } else {
        match spec_boundary(s.drop_first()) {
            Some(i) => Some(i + 1),
            None => None,
        }
    }
}

/// `spec_boundary` returns the first boundary: a boundary position with
/// no boundary before it, or `None` when the string has no boundary.
pub proof fn lemma_boundary_first(s: Seq<char>)
    ensures
        match spec_boundary(s) {
            Some(i) => spec_is_boundary_at(s, i) && forall|j: int|
                0 <= j < i ==> !spec_is_boundary_at(s, j),
            None => forall|j: int| !spec_is_boundary_at(s, j),
        },
    decreases s.len(),
{
    if s.len() >= 2 && !(s[0] == ' ' && s[1] == ':') {
        let d = s.drop_first();
        lemma_boundary_first(d);
        assert(forall|j: int| 0 <= j < d.len() ==> d[j] == s[j + 1]);
        match spec_boundary(d) {
            Some(i) => {
                assert(spec_is_boundary_at(s, i + 1));
                assert forall|j: int| 0 <= j < i + 1 implies !spec_is_boundary_at(s, j) by {
                    if j > 0 && spec_is_boundary_at(s, j) {
                        assert(spec_is_boundary_at(d, j - 1));
                    }
                }
            },
            None => {
                assert forall|j: int| !spec_is_boundary_at(s, j) by {
                    if j > 0 && spec_is_boundary_at(s, j) {
                        assert(spec_is_boundary_at(d, j - 1));
                    }
                }
            },
        }
    }
}

/// Scans `s` for the first space-colon pair.
pub fn find_boundary(s: &str) -> (r: Option<usize>)
    ensures
        match r {
            Some(i) => spec_boundary(s@) == Some(i as int),
            None => spec_boundary(s@) is None,
        },
{
    let n = s.unicode_len();
    if n < 2 {
        proof {
            lemma_boundary_first(s@);
        }
        return None;
    }
    let mut i: usize = 0;
    while i + 1 < n
        invariant
            i + 1 <= n,
            n == s@.len(),
            n >= 2,
            forall|j: int| 0 <= j < i ==> !spec_is_boundary_at(s@, j),
        decreases n - i,
    {
        if s.get_char(i) == ' ' && s.get_char(i + 1) == ':' {
            proof {
                lemma_boundary_first(s@);
                assert(spec_is_boundary_at(s@, i as int));
            }
            return Some(i);
        }
        proof {
            assert(!spec_is_boundary_at(s@, i as int));
        }
        i += 1;
    }
    proof {
        lemma_boundary_first(s@);
    }
    None
}

/// The sender nick within an origin string: everything before the first
/// `'!'`, or the whole origin when no `'!'` occurs.
pub open spec fn spec_nick_of(s: Seq<char>) -> Seq<char> {
    match spec_find_char(s, '!') {
        Some(i) => s.take(i),
        None => s,
    }
}

/// Extracts the sender nick from an origin string.
pub fn nick_of(origin: &str) -> (r: String)
    ensures
        r@ == spec_nick_of(origin@),
{
    match find_char(origin, '!') {
        Some(i) => {
            proof {
                lemma_find_char_first(origin@, '!');
                assert(origin@.subrange(0, i as int) =~= origin@.take(i as int));
            }
            String::from_str(origin.substring_char(0, i))
        },
        None => String::from_str(origin),
    }
}

/// The tokens of `ts` joined by single spaces: the whitespace-normalized
/// form of a line whose tokens are `ts`.
pub open spec fn spec_join_spaced(ts: Seq<Seq<char>>) -> Seq<char>
    decreases ts.len(),
{
    if ts.len() == 0 {
        Seq::empty()
    } else if ts.len() == 1 {
        ts[0]
    } else {
        ts[0] + seq![' '] + spec_join_spaced(ts.drop_first())
    }
}

/// A well-formed token: non-empty and free of whitespace characters.
pub open spec fn spec_wf_token(t: Seq<char>) -> bool {
    t.len() > 0 && forall|j: int| 0 <= j < t.len() ==> !spec_is_ws(t[j])
}

/// A well-formed token sequence: every element is a well-formed token.
pub open spec fn spec_wf_tokens(ts: Seq<Seq<char>>) -> bool {
    forall|i: int| 0 <= i < ts.len() ==> spec_wf_token(#[trigger] ts[i])
}

/// The token prefix holds no whitespace character.
proof fn lemma_token_prefix_no_ws(s: Seq<char>)
    ensures
        forall|j: int|
            0 <= j < spec_token_prefix(s).len() ==> !spec_is_ws(spec_token_prefix(s)[j]),
    decreases s.len(),
{
    if s.len() > 0 && !spec_is_ws(s[0]) {
        let d = s.drop_first();
        lemma_token_prefix_no_ws(d);
        let tp = spec_token_prefix(s);
        assert forall|j: int| 0 <= j < tp.len() implies !spec_is_ws(tp[j]) by {
            if j > 0 {
                assert(tp[j] == spec_token_prefix(d)[j - 1]);
            }
        }
    }
}

/// Every token that tokenization produces is well formed.
pub proof fn lemma_tokens_wf(s: Seq<char>)
    ensures
        spec_wf_tokens(spec_tokens(s)),
    decreases s.len(),
{
    if s.len() == 0 {
    } else if spec_is_ws(s[0]) {
        lemma_tokens_wf(s.drop_first());
    } else {
        lemma_token_prefix_len(s);
        lemma_token_prefix_no_ws(s);
        let tp = spec_token_prefix(s);
        lemma_tokens_wf(s.skip(tp.len() as int));
        let rest = spec_tokens(s.skip(tp.len() as int));
        assert forall|i: int| 0 <= i < spec_tokens(s).len() implies spec_wf_token(
            #[trigger] spec_tokens(s)[i],
        ) by {
            if i > 0 {
                assert(spec_tokens(s)[i] == rest[i - 1]);
            }
        }
    }
}

/// Tokenizing a well-formed token followed by text that is empty or
/// starts with whitespace yields that token, then the tokens of the
/// following text.
proof fn lemma_tokens_of_concat(a: Seq<char>, b: Seq<char>)
    requires
        spec_wf_token(a),
        b.len() == 0 || spec_is_ws(b[0]),
    ensures
        spec_tokens(a + b) == seq![a] + spec_tokens(b),
{
    let s = a + b;
    assert(forall|j: int| 0 <= j < a.len() ==> s[j] == a[j]);
    lemma_token_prefix_of(s, a.len() as int);
    assert(s.take(a.len() as int) =~= a);
    assert(s.skip(a.len() as int) =~= b);
}

/// Joining well-formed tokens with single spaces and tokenizing the
/// result gives back exactly those tokens.
pub proof fn lemma_tokens_of_join(ts: Seq<Seq<char>>)
    requires
        spec_wf_tokens(ts),
    ensures
        spec_tokens(spec_join_spaced(ts)) == ts,
    decreases ts.len(),
{
    if ts.len() == 0 {
        assert(spec_tokens(spec_join_spaced(ts)) =~~= ts);
    } else if ts.len() == 1 {
        assert(spec_wf_token(ts[0]));
        lemma_tokens_of_concat(ts[0], Seq::empty());
        assert(ts[0] + Seq::<char>::empty() =~= ts[0]);
        assert(seq![ts[0]] + spec_tokens(Seq::<char>::empty()) =~~= ts);
    } else {
        let rest = ts.drop_first();
        let b = seq![' '] + spec_join_spaced(rest);
        assert(spec_wf_token(ts[0]));
        assert(spec_is_ws(b[0]));
        assert(spec_join_spaced(ts) =~= ts[0] + b);
        lemma_tokens_of_concat(ts[0], b);
        assert(b.drop_first() =~= spec_join_spaced(rest));
        assert(forall|i: int| 0 <= i < rest.len() ==> rest[i] == ts[i + 1]);
        lemma_tokens_of_join(rest);
        assert(seq![ts[0]] + rest =~~= ts);
    }
}

/// Tokenization is idempotent: re-tokenizing the whitespace-normalized
/// form of a line — its tokens joined by single spaces — gives the same
/// tokens again.
pub proof fn lemma_normalize_idempotent(s: Seq<char>)
    ensures
        spec_tokens(spec_join_spaced(spec_tokens(s))) == spec_tokens(s),
{
    lemma_tokens_wf(s);
    lemma_tokens_of_join(spec_tokens(s));
}

/// Equality of two string slices, decided character by character.
pub fn str_eq(a: &str, b: &str) -> (r: bool)
    ensures
        r == (a@ == b@),
{
    let na = a.unicode_len();
    let nb = b.unicode_len();
    if na != nb {
        proof {
            if a@ == b@ {
                assert(a@.len() == b@.len());
            }
        }
        return false;
    }
    let mut i: usize = 0;
    while i < na
        invariant
            i <= na,
            na == a@.len(),
            nb == b@.len(),
            na == nb,
            forall|j: int| 0 <= j < i ==> a@[j] == b@[j],
        decreases na - i,
    {
        if a.get_char(i) != b.get_char(i) {
            return false;
        }
        i += 1;
    }
    proof {
        assert(a@ =~= b@);
    }
    true
}

} // verus!
