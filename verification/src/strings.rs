//! Text utilities: character-level string handling, substring search,
//! whitespace tokenization, and the helpers the process filter relies on.

use vstd::prelude::*;

verus! {

/// The lowercase form of a character sequence, as Unicode case mapping
/// defines it for whole strings. The mapping depends on the characters
/// alone, so it is given a name rather than spelled out.
pub uninterp spec fn lower_of(s: Seq<char>) -> Seq<char>;

/// Relies on str::to_lowercase: the result depends on the characters alone.
#[verifier::external_body]
pub(crate) fn to_lowercase_str(s: &str) -> (r: String)
    ensures
        r@ == lower_of(s@),
{
    s.to_lowercase()
}

/// Relies on String::push: appends exactly the one character.
#[verifier::external_body]
pub(crate) fn push_char(s: &mut String, c: char)
    ensures
        final(s)@ == old(s)@.push(c),
{
    s.push(c)
}

/// Collects the characters of a string slice into a vector.
pub fn chars_vec(s: &str) -> (r: Vec<char>)
    ensures
        r@ == s@,
{
    let n = s.unicode_len();
    let mut r: Vec<char> = Vec::new();
    let mut i: usize = 0;
    while i < n
        invariant
            n == s@.len(),
            i <= n,
            r@ == s@.subrange(0, i as int),
        decreases n - i,
    {
        r.push(s.get_char(i));
        i += 1;
        proof {
            assert(r@ =~= s@.subrange(0, i as int));
        }
    }
    proof {
        assert(r@ =~= s@);
    }
    r
}

/// Builds a string out of a character vector.
pub fn string_of_chars(v: &Vec<char>) -> (r: String)
    ensures
        r@ == v@,
{
    let mut r = String::new();
    let mut i: usize = 0;
    while i < v.len()
        invariant
            i <= v@.len(),
            r@ == v@.subrange(0, i as int),
        decreases v@.len() - i,
    {
        push_char(&mut r, v[i]);
        i += 1;
        proof {
            assert(r@ =~= v@.subrange(0, i as int));
        }
    }
    proof {
        assert(r@ =~= v@);
    }
    r
}

/// Whether `w` occurs in `t` starting at position `i`.
pub open spec fn occurs_at(t: Seq<char>, w: Seq<char>, i: int) -> bool {
    0 <= i && i + w.len() <= t.len() && t.subrange(i, i + w.len()) == w
}

/// Whether `w` occurs as a contiguous run inside `t`.
pub open spec fn contains_seq(t: Seq<char>, w: Seq<char>) -> bool {
    exists|i: int| #[trigger] occurs_at(t, w, i)
}

/// Whether `w` occurs in `t` at position `i`.
pub fn match_at(t: &Vec<char>, w: &Vec<char>, i: usize) -> (r: bool)
    requires
        i + w@.len() <= t@.len(),
    ensures
        r == occurs_at(t@, w@, i as int),
{
    let tlen = t.len();
    let mut j: usize = 0;
    while j < w.len()
        invariant
            tlen == t@.len(),
            i + w@.len() <= t@.len(),
            j <= w@.len(),
            forall|k: int| 0 <= k < j ==> t@[i + k] == w@[k],
        decreases w@.len() - j,
    {
        if t[i + j] != w[j] {
            assert(t@.subrange(i as int, i + w@.len())[j as int] != w@[j as int]);
            return false;
        }
        j += 1;
    }
    proof {
        assert(t@.subrange(i as int, i + w@.len()) =~= w@);
    }
    true
}

/// Substring search: reports whether `w` occurs anywhere in `t`.
pub fn seq_contains(t: &Vec<char>, w: &Vec<char>) -> (r: bool)
    ensures
        r == contains_seq(t@, w@),
{
    if w.len() == 0 {
        proof {
            assert(t@.subrange(0, 0) =~= w@);
            assert(occurs_at(t@, w@, 0));
        }
        return true;
    }
    if w.len() > t.len() {
        return false;
    }
    let last = t.len() - w.len();
    let mut i: usize = 0;
    while i <= last
        invariant
            t@.len() <= usize::MAX,
            1 <= w@.len() <= t@.len(),
            last == t@.len() - w@.len(),
            i <= last + 1,
            forall|k: int| 0 <= k < i ==> !occurs_at(t@, w@, k),
        decreases last - i + 1,
    {
        if match_at(t, w, i) {
            return true;
        }
        i += 1;
    }
    false
}

/// The characters with the Unicode white-space property, which is what
/// str::split_whitespace breaks on.
pub open spec fn is_space_char(c: char) -> bool {
    ||| c == '\u{0009}'
    ||| c == '\u{000A}'
    ||| c == '\u{000B}'
    ||| c == '\u{000C}'
    ||| c == '\u{000D}'
    ||| c == ' '
    ||| c == '\u{0085}'
    ||| c == '\u{00A0}'
    ||| c == '\u{1680}'
    ||| ('\u{2000}' <= c && c <= '\u{200A}')
    ||| c == '\u{2028}'
    ||| c == '\u{2029}'
    ||| c == '\u{202F}'
    ||| c == '\u{205F}'
    ||| c == '\u{3000}'
}

/// Whether the character counts as white space for tokenization.
pub fn is_space(c: char) -> (r: bool)
    ensures
        r == is_space_char(c),
{
    c == '\u{0009}' || c == '\u{000A}' || c == '\u{000B}' || c == '\u{000C}' || c == '\u{000D}'
        || c == ' ' || c == '\u{0085}' || c == '\u{00A0}' || c == '\u{1680}'
        || ('\u{2000}' <= c && c <= '\u{200A}') || c == '\u{2028}' || c == '\u{2029}'
        || c == '\u{202F}' || c == '\u{205F}' || c == '\u{3000}'
}

/// The length of the leading run of non-space characters.
pub open spec fn token_len(s: Seq<char>) -> nat
    decreases s.len(),
{
    if s.len() == 0 {
        0
    } else if is_space_char(s[0]) {
        0
    } else {
        1 + token_len(s.drop_first())
    }
}

proof fn lemma_token_len_bounds(s: Seq<char>)
    ensures
        token_len(s) <= s.len(),
        forall|k: int| 0 <= k < token_len(s) ==> !is_space_char(#[trigger] s[k]),
        token_len(s) < s.len() ==> is_space_char(s[token_len(s) as int]),
    decreases s.len(),
{
    if s.len() > 0 && !is_space_char(s[0]) {
        lemma_token_len_bounds(s.drop_first());
        assert(forall|k: int| 0 <= k < token_len(s) ==> !is_space_char(#[trigger] s[k])) by {
            assert forall|k: int| 0 <= k < token_len(s) implies !is_space_char(#[trigger] s[k]) by {
                if k > 0 {
                    assert(s.drop_first()[k - 1] == s[k]);
                }
            }
        }
        if token_len(s) < s.len() {
            assert(s.drop_first()[token_len(s.drop_first()) as int]
                == s[token_len(s) as int]);
        }
    }
}

proof fn lemma_token_len_is(s: Seq<char>, m: int)
    requires
        0 <= m <= s.len(),
        forall|k: int| 0 <= k < m ==> !is_space_char(#[trigger] s[k]),
        m < s.len() ==> is_space_char(s[m]),
    ensures
        token_len(s) == m,
    decreases s.len(),
{
    if m == 0 {
    } else {
        assert(!is_space_char(s[0]));
        assert forall|k: int| 0 <= k < m - 1 implies !is_space_char(#[trigger] s.drop_first()[k]) by {
            assert(s.drop_first()[k] == s[k + 1]);
        }
        if m - 1 < s.drop_first().len() {
            assert(s.drop_first()[m - 1] == s[m]);
        }
        lemma_token_len_is(s.drop_first(), m - 1);
    }
}

/// The white-space-separated tokens of a character sequence, in order.
pub open spec fn spec_tokens(s: Seq<char>) -> Seq<Seq<char>>
    decreases s.len(),
    via spec_tokens_decreases
{
    if s.len() == 0 {
        Seq::empty()
    } else if is_space_char(s[0]) {
        spec_tokens(s.drop_first())
    } else {
        seq![s.take(token_len(s) as int)] + spec_tokens(s.skip(token_len(s) as int))
    }
}

#[via_fn]
proof fn spec_tokens_decreases(s: Seq<char>) {
    if s.len() > 0 && !is_space_char(s[0]) {
        lemma_token_len_bounds(s);
    }
}

/// Splits on white space, as str::split_whitespace does.
pub fn split_words(s: &str) -> (r: Vec<String>)
    ensures
        r.deep_view() == spec_tokens(s@),
{
    let v = chars_vec(s);
    let n = v.len();
    let mut out: Vec<String> = Vec::new();
    let mut i: usize = 0;
    proof {
        assert(s@.skip(0) =~= s@);
    }
    while i < n
        invariant
            v@ == s@,
            n == v@.len(),
            i <= n,
            spec_tokens(s@) == out.deep_view() + spec_tokens(s@.skip(i as int)),
        decreases n - i,
    {
        if is_space(v[i]) {
            proof {
                assert(s@.skip(i as int).drop_first() =~= s@.skip(i + 1));
            }
            i += 1;
        } else {
            let mut j: usize = i;
            let mut token: Vec<char> = Vec::new();
            while j < n && !is_space(v[j])
                invariant
                    v@ == s@,
                    n == v@.len(),
                    i <= j <= n,
                    token@ == s@.subrange(i as int, j as int),
                    forall|k: int| i <= k < j ==> !is_space_char(#[trigger] s@[k]),
                decreases n - j,
            {
                token.push(v[j]);
                j += 1;
                proof {
                    assert(token@ =~= s@.subrange(i as int, j as int));
                }
            }
            proof {
                let t = s@.skip(i as int);
                assert forall|k: int| 0 <= k < j - i implies !is_space_char(#[trigger] t[k]) by {
                    assert(t[k] == s@[i + k]);
                }
                if j < n {
                    assert(t[j - i] == s@[j as int]);
                }
                lemma_token_len_is(t, j - i);
                assert(t.take(token_len(t) as int) =~= s@.subrange(i as int, j as int));
                assert(t.skip(token_len(t) as int) =~= s@.skip(j as int));
                assert(!is_space_char(t[0]));
            }
            let tok_str = string_of_chars(&token);
            out.push(tok_str);
            proof {
                assert(out.deep_view() =~= out.deep_view().subrange(0, out.deep_view().len() - 1)
                    + seq![token@]);
                assert(spec_tokens(s@) =~= out.deep_view() + spec_tokens(s@.skip(j as int)));
            }
            i = j;
        }
    }
    proof {
        assert(spec_tokens(s@.skip(n as int)) =~= Seq::<Seq<char>>::empty());
        assert(out.deep_view() =~= out.deep_view() + spec_tokens(s@.skip(n as int)));
    }
    out
}

/// A text after horizontal scrolling: the first `scroll` characters are cut
/// off; a non-positive scroll leaves the text whole.
pub open spec fn spec_apply_scroll(s: Seq<char>, scroll: int) -> Seq<char> {
    if scroll <= 0 {
        s
    } else if scroll >= s.len() {
        Seq::empty()
    } else {
        s.skip(scroll)
    }
}

/// Cuts the first `scroll` characters off, for horizontal scrolling.
pub fn apply_scroll(text: &String, scroll: i32) -> (r: String)
    ensures
        r@ == spec_apply_scroll(text@, scroll as int),
{
    if scroll <= 0 {
        return text.clone();
    }
    let v = chars_vec(text.as_str());
    let n = v.len();
    let k: usize = if scroll as usize >= n {
        n
    } else {
        scroll as usize
    };
    let mut out: Vec<char> = Vec::new();
    let mut i: usize = k;
    while i < n
        invariant
            v@ == text@,
            n == v@.len(),
            k <= i <= n,
            out@ == v@.subrange(k as int, i as int),
        decreases n - i,
    {
        out.push(v[i]);
        i += 1;
        proof {
            assert(out@ =~= v@.subrange(k as int, i as int));
        }
    }
    proof {
        if scroll as int >= text@.len() {
            assert(out@ =~= spec_apply_scroll(text@, scroll as int));
        } else {
            assert(out@ =~= text@.skip(scroll as int));
        }
    }
    string_of_chars(&out)
}

/// The length of the leading run of characters other than a double quote.
pub open spec fn quote_run_len(s: Seq<char>) -> nat
    decreases s.len(),
{
    if s.len() == 0 {
        0
    } else if s[0] == '"' {
        0
    } else {
        1 + quote_run_len(s.drop_first())
    }
}

proof fn lemma_quote_run_len_is(s: Seq<char>, m: int)
    requires
        0 <= m <= s.len(),
        forall|k: int| 0 <= k < m ==> #[trigger] s[k] != '"',
        m < s.len() ==> s[m] == '"',
    ensures
        quote_run_len(s) == m,
    decreases s.len(),
{
    if m == 0 {
    } else {
        assert forall|k: int| 0 <= k < m - 1 implies #[trigger] s.drop_first()[k] != '"' by {
            assert(s.drop_first()[k] == s[k + 1]);
        }
        if m - 1 < s.drop_first().len() {
            assert(s.drop_first()[m - 1] == s[m]);
        }
        lemma_quote_run_len_is(s.drop_first(), m - 1);
    }
}

/// The executable name at the head of a command line: the quoted prefix if
/// the line opens with a double quote, otherwise its first token.
pub open spec fn spec_first_cmd_part(s: Seq<char>) -> Seq<char> {
    if s.len() > 0 && s[0] == '"' {
        s.drop_first().take(quote_run_len(s.drop_first()) as int)
    } else if spec_tokens(s).len() == 0 {
        Seq::empty()
    } else {
        spec_tokens(s)[0]
    }
}

/// Extracts the executable name at the head of a command line.
pub fn first_cmd_part(cmd: &str) -> (r: String)
    ensures
        r@ == spec_first_cmd_part(cmd@),
{
    let v = chars_vec(cmd);
    let n = v.len();
    if n > 0 && v[0] == '"' {
        let mut out: Vec<char> = Vec::new();
        let mut i: usize = 1;
        while i < n && v[i] != '"'
            invariant
                v@ == cmd@,
                n == v@.len(),
                1 <= i <= n,
                out@ == v@.subrange(1, i as int),
                forall|k: int| 1 <= k < i ==> #[trigger] v@[k] != '"',
            decreases n - i,
        {
            out.push(v[i]);
            i += 1;
            proof {
                assert(out@ =~= v@.subrange(1, i as int));
            }
        }
        proof {
            let t = cmd@.drop_first();
            assert forall|k: int| 0 <= k < i - 1 implies #[trigger] t[k] != '"' by {
                assert(t[k] == cmd@[k + 1]);
            }
            if i < n {
                assert(t[i - 1] == cmd@[i as int]);
            }
            lemma_quote_run_len_is(t, i - 1);
            assert(out@ =~= t.take(quote_run_len(t) as int));
        }
        return string_of_chars(&out);
    }
    let words = split_words(cmd);
    if words.len() == 0 {
        proof {
            assert(spec_first_cmd_part(cmd@) =~= Seq::<char>::empty());
        }
        String::new()
    } else {
        let first = words[0].clone();
        assert(first@ == words.deep_view()[0]);
        first
    }
}

/// Every word of `ws` occurs in `t`.
pub open spec fn spec_contains_all(t: Seq<char>, ws: Seq<Seq<char>>) -> bool {
    forall|k: int| 0 <= k < ws.len() ==> contains_seq(t, #[trigger] ws[k])
}

/// Whether every word occurs in the lowercased text. The words are expected
/// to be lowercase already; the text is lowercased here.
pub fn contains_all_words(text: &str, words: &Vec<String>) -> (r: bool)
    ensures
        r == spec_contains_all(lower_of(text@), words.deep_view()),
{
    let lower = to_lowercase_str(text);
    let tv = chars_vec(lower.as_str());
    let mut k: usize = 0;
    while k < words.len()
        invariant
            tv@ == lower_of(text@),
            k <= words@.len(),
            forall|j: int| 0 <= j < k ==> contains_seq(lower_of(text@), #[trigger] words.deep_view()[j]),
        decreases words@.len() - k,
    {
        let wv = chars_vec(words[k].as_str());
        if !seq_contains(&tv, &wv) {
            assert(!contains_seq(lower_of(text@), words.deep_view()[k as int]));
            return false;
        }
        k += 1;
    }
    true
}

} // verus!
