//! Character-level text helpers for the chat command grammar: equality,
//! prefix tests, trimming and whitespace splitting, each specified over
//! `Seq<char>` views so the command interpreter's contracts can speak of the
//! exact message text.
use vstd::prelude::*;

verus! {

/// The whitespace characters the command grammar strips.
pub open spec fn is_space(c: char) -> bool {
    c == ' ' || c == '\t' || c == '\r' || c == '\n'
}

/// `s` with leading whitespace removed.
pub open spec fn trim_start_spec(s: Seq<char>) -> Seq<char>
    decreases s.len(),
{
    if s.len() > 0 && is_space(s[0]) {
        trim_start_spec(s.drop_first())
    } else {
        s
    }
}

/// `s` with trailing whitespace removed.
pub open spec fn trim_end_spec(s: Seq<char>) -> Seq<char>
    decreases s.len(),
{
    if s.len() > 0 && is_space(s[s.len() - 1]) {
        trim_end_spec(s.drop_last())
    } else {
        s
    }
}

/// `s` with whitespace removed on both sides.
pub open spec fn trim_spec(s: Seq<char>) -> Seq<char> {
    trim_end_spec(trim_start_spec(s))
}

/// `p` is a prefix of `s`.
pub open spec fn starts_with_spec(s: Seq<char>, p: Seq<char>) -> bool {
    p.len() <= s.len() && s.subrange(0, p.len() as int) == p
}

/// Length of the leading run of non-whitespace characters.
pub open spec fn word_len_spec(s: Seq<char>) -> nat
    decreases s.len(),
{
    if s.len() > 0 && !is_space(s[0]) {
        1 + word_len_spec(s.drop_first())
    } else {
        0
    }
}

/// The leading word is never longer than the text.
pub proof fn lemma_word_len_le(s: Seq<char>)
    ensures
        word_len_spec(s) <= s.len(),
    decreases s.len(),
{
    if s.len() > 0 && !is_space(s[0]) {
        lemma_word_len_le(s.drop_first());
    }
}

/// The whitespace-separated words of `s`, in order.
pub open spec fn split_ws_spec(s: Seq<char>) -> Seq<Seq<char>>
    decreases s.len(),
    via split_ws_spec_decreases
{
    if s.len() == 0 {
        Seq::empty()
    } else if is_space(s[0]) {
        split_ws_spec(s.drop_first())
    } else {
        let w = word_len_spec(s);
        seq![s.subrange(0, w as int)] + split_ws_spec(s.subrange(w as int, s.len() as int))
    }
}

#[via_fn]
proof fn split_ws_spec_decreases(s: Seq<char>) {
    if s.len() > 0 && !is_space(s[0]) {
        lemma_word_len_le(s);
        assert(word_len_spec(s) >= 1);
    }
}

/// Character-for-character string equality.
pub fn str_eq(a: &str, b: &str) -> (r: bool)
    ensures
        r == (a@ == b@),
{
    let la = a.unicode_len();
    let lb = b.unicode_len();
    if la != lb {
        return false;
    }
    let mut i: usize = 0;
    while i < la
        invariant
            la == a@.len(),
            la == b@.len(),
            0 <= i <= la,
            forall|j: int| 0 <= j < i ==> a@[j] == b@[j],
        decreases la - i,
    {
        if a.get_char(i) != b.get_char(i) {
            return false;
        }
        i += 1;
    }
    proof {
        assert(a@ =~= b@);
    }
    true
}

/// Does `s` start with `p`?
pub fn starts_with(s: &str, p: &str) -> (r: bool)
    ensures
        r == starts_with_spec(s@, p@),
{
    let ls = s.unicode_len();
    let lp = p.unicode_len();
    if lp > ls {
        return false;
    }
    let mut i: usize = 0;
    while i < lp
        invariant
            ls == s@.len(),
            lp == p@.len(),
            lp <= ls,
            0 <= i <= lp,
            forall|j: int| 0 <= j < i ==> s@[j] == p@[j],
        decreases lp - i,
    {
        if s.get_char(i) != p.get_char(i) {
            proof {
                if starts_with_spec(s@, p@) {
                    assert(s@.subrange(0, p@.len() as int)[i as int] == p@[i as int]);
                }
            }
            return false;
        }
        i += 1;
    }
    proof {
        assert(s@.subrange(0, p@.len() as int) =~= p@);
    }
    true
}

/// The rest of `s` after the prefix `p`.
pub fn after_prefix<'a>(s: &'a str, p: &str) -> (r: &'a str)
    requires
        starts_with_spec(s@, p@),
    ensures
        r@ == s@.subrange(p@.len() as int, s@.len() as int),
{
    let ls = s.unicode_len();
    let lp = p.unicode_len();
    s.substring_char(lp, ls)
}

proof fn lemma_trim_start_at(s: Seq<char>, k: int)
    requires
        0 <= k <= s.len(),
        forall|j: int| 0 <= j < k ==> is_space(s[j]),
        k < s.len() ==> !is_space(s[k]),
    ensures
        trim_start_spec(s) == s.subrange(k, s.len() as int),
    decreases k,
{
    if k == 0 {
        assert(s.subrange(0, s.len() as int) =~= s);
    } else {
        let t = s.drop_first();
        lemma_trim_start_at(t, k - 1);
        assert(t.subrange(k - 1, t.len() as int) =~= s.subrange(k, s.len() as int));
    }
}

proof fn lemma_trim_end_at(s: Seq<char>, k: int)
    requires
        0 <= k <= s.len(),
        forall|j: int| k <= j < s.len() ==> is_space(s[j]),
        k > 0 ==> !is_space(s[k - 1]),
    ensures
        trim_end_spec(s) == s.subrange(0, k),
    decreases s.len() - k,
{
    if k == s.len() {
        assert(s.subrange(0, s.len() as int) =~= s);
    } else {
        let t = s.drop_last();
        lemma_trim_end_at(t, k);
        assert(t.subrange(0, k) =~= s.subrange(0, k));
    }
}

/// `s` with surrounding whitespace removed.
pub fn trim(s: &str) -> (r: &str)
    ensures
        r@ == trim_spec(s@),
{
    let ls = s.unicode_len();
    let mut i: usize = 0;
    while i < ls && is_space_exec(s.get_char(i))
        invariant
            ls == s@.len(),
            0 <= i <= ls,
            forall|j: int| 0 <= j < i ==> is_space(s@[j]),
        decreases ls - i,
    {
        i += 1;
    }
    proof {
        lemma_trim_start_at(s@, i as int);
    }
    if i == ls {
        let r = s.substring_char(ls, ls);
        proof {
            assert(trim_end_spec(s@.subrange(ls as int, ls as int)) =~= s@.subrange(
                ls as int,
                ls as int,
            ));
        }
        return r;
    }
    let mut j: usize = ls;
    while j > i && is_space_exec(s.get_char(j - 1))
        invariant
            ls == s@.len(),
            0 <= i < ls,
            i <= j <= ls,
            forall|k: int| j <= k < ls ==> is_space(s@[k]),
            !is_space(s@[i as int]),
        decreases j,
    {
        j -= 1;
    }
    proof {
        let st = s@.subrange(i as int, ls as int);
        assert(j > i);
        assert(!is_space(st[j - 1 - i]));
        assert(forall|k: int| j - i <= k < st.len() ==> is_space(st[k]));
        lemma_trim_end_at(st, j - i);
        assert(st.subrange(0, j - i) =~= s@.subrange(i as int, j as int));
    }
    s.substring_char(i, j)
}

/// Exec mirror of `is_space`.
pub fn is_space_exec(c: char) -> (r: bool)
    ensures
        r == is_space(c),
{
    c == ' ' || c == '\t' || c == '\r' || c == '\n'
}

/// The position of the first space character, if any.
pub fn find_space(s: &str) -> (r: Option<usize>)
    ensures
        match r {
            Option::Some(i) => i < s@.len() && s@[i as int] == ' ' && forall|j: int|
                0 <= j < i ==> s@[j] != ' ',
            Option::None => forall|j: int| 0 <= j < s@.len() ==> s@[j] != ' ',
        },
{
    let ls = s.unicode_len();
    let mut i: usize = 0;
    while i < ls
        invariant
            ls == s@.len(),
            0 <= i <= ls,
            forall|j: int| 0 <= j < i ==> s@[j] != ' ',
        decreases ls - i,
    {
        if s.get_char(i) == ' ' {
            return Option::Some(i);
        }
        i += 1;
    }
    Option::None
}

/// Take the first `n` characters.
pub fn take_chars<'a>(s: &'a str, n: usize) -> (r: &'a str)
    requires
        n <= s@.len(),
    ensures
        r@ == s@.subrange(0, n as int),
{
    s.substring_char(0, n)
}

/// Drop the first `n` characters.
pub fn skip_chars<'a>(s: &'a str, n: usize) -> (r: &'a str)
    requires
        n <= s@.len(),
    ensures
        r@ == s@.subrange(n as int, s@.len() as int),
{
    let ls = s.unicode_len();
    s.substring_char(n, ls)
}

proof fn lemma_word_len_at(s: Seq<char>, k: int)
    requires
        0 <= k <= s.len(),
        forall|j: int| 0 <= j < k ==> !is_space(s[j]),
        k < s.len() ==> is_space(s[k]),
    ensures
        word_len_spec(s) == k,
    decreases k,
{
    if k == 0 {
    } else {
        let t = s.drop_first();
        lemma_word_len_at(t, k - 1);
    }
}

/// Length of the leading non-whitespace run.
fn word_len(s: &str) -> (r: usize)
    ensures
        r == word_len_spec(s@),
        r <= s@.len(),
{
    let ls = s.unicode_len();
    let mut i: usize = 0;
    while i < ls && !is_space_exec(s.get_char(i))
        invariant
            ls == s@.len(),
            0 <= i <= ls,
            forall|j: int| 0 <= j < i ==> !is_space(s@[j]),
        decreases ls - i,
    {
        i += 1;
    }
    proof {
        lemma_word_len_at(s@, i as int);
    }
    i
}

/// The whitespace-separated words of `s`, as owned strings.
pub fn split_ws(s: &str) -> (r: Vec<String>)
    ensures
        r@.len() == split_ws_spec(s@).len(),
        forall|i: int| 0 <= i < r@.len() ==> r@[i]@ == split_ws_spec(s@)[i],
    decreases s@.len(),
{
    let ls = s.unicode_len();
    if ls == 0 {
        return Vec::new();
    }
    if is_space_exec(s.get_char(0)) {
        let rest = skip_chars(s, 1);
        proof {
            assert(s@.subrange(1, s@.len() as int) =~= s@.drop_first());
        }
        return split_ws(rest);
    }
    let w = word_len(s);
    assert(w >= 1);
    let word = take_chars(s, w);
    let rest = skip_chars(s, w);
    let mut result = split_ws(rest);
    result.insert(0, word.to_owned());
    proof {
        let parts = split_ws_spec(s@);
        assert(parts == seq![s@.subrange(0, w as int)] + split_ws_spec(
            s@.subrange(w as int, s@.len() as int),
        ));
        assert(forall|i: int| 0 <= i < result@.len() ==> result@[i]@ == parts[i]);
    }
    result
}

} // verus!
