//! Pig Latin transform over UTF-8 text: each whitespace-delimited token is
//! transformed independently — a token starting with a lowercase vowel gets
//! `-hay` appended, any other token has its first character (a Unicode
//! scalar, never a fraction of one) moved to the end as `-<c>ay` — and the
//! results are joined with single spaces, with no leading or trailing space.

use vstd::prelude::*;

verus! {

/// The Unicode `White_Space` characters, the separators tokens split on.
pub open spec fn is_ws_char(c: char) -> bool {
    ||| c == '\t'
    ||| c == '\n'
    ||| c == '\u{0B}'
    ||| c == '\u{0C}'
    ||| c == '\r'
    ||| c == ' '
    ||| c == '\u{85}'
    ||| c == '\u{A0}'
    ||| c == '\u{1680}'
    ||| c == '\u{2000}'
    ||| c == '\u{2001}'
    ||| c == '\u{2002}'
    ||| c == '\u{2003}'
    ||| c == '\u{2004}'
    ||| c == '\u{2005}'
    ||| c == '\u{2006}'
    ||| c == '\u{2007}'
    ||| c == '\u{2008}'
    ||| c == '\u{2009}'
    ||| c == '\u{200A}'
    ||| c == '\u{2028}'
    ||| c == '\u{2029}'
    ||| c == '\u{202F}'
    ||| c == '\u{205F}'
    ||| c == '\u{3000}'
}

/// The lowercase vowels the transform special-cases.
pub open spec fn is_vowel_char(c: char) -> bool {
    c == 'a' || c == 'e' || c == 'i' || c == 'o' || c == 'u'
}

/// Whether `c` is a whitespace separator.
pub fn is_whitespace_char(c: char) -> (r: bool)
    ensures
        r == is_ws_char(c),
{
    match c {
        '\t' | '\n' | '\u{0B}' | '\u{0C}' | '\r' | ' ' | '\u{85}' | '\u{A0}' | '\u{1680}'
            | '\u{2000}' | '\u{2001}' | '\u{2002}' | '\u{2003}' | '\u{2004}' | '\u{2005}'
            | '\u{2006}' | '\u{2007}' | '\u{2008}' | '\u{2009}' | '\u{200A}' | '\u{2028}'
            | '\u{2029}' | '\u{202F}' | '\u{205F}' | '\u{3000}' => true,
        _ => false,
    }
}

/// Whether `c` is a lowercase vowel.
pub fn is_vowel(c: char) -> (r: bool)
    ensures
        r == is_vowel_char(c),
{
    match c {
        'a' | 'e' | 'i' | 'o' | 'u' => true,
        _ => false,
    }
}

/// The maximal non-whitespace prefix of `s`.
pub open spec fn token_prefix(s: Seq<char>) -> Seq<char>
    decreases s.len(),
{
    if s.len() == 0 || is_ws_char(s[0]) {
        Seq::empty()
    } else {
        seq![s[0]] + token_prefix(s.drop_first())
    }
}

/// What `token_prefix` takes: an in-range prefix of non-whitespace
/// characters ending at the end of `s` or just before a separator.
proof fn lemma_token_prefix(s: Seq<char>)
    ensures
        token_prefix(s).len() <= s.len(),
        token_prefix(s) == s.take(token_prefix(s).len() as int),
        forall|k: int| 0 <= k < token_prefix(s).len() ==> !is_ws_char(#[trigger] s[k]),
        token_prefix(s).len() == s.len() || is_ws_char(s[token_prefix(s).len() as int]),
        s.len() > 0 && !is_ws_char(s[0]) ==> token_prefix(s).len() >= 1,
    decreases s.len(),
{
    if s.len() == 0 || is_ws_char(s[0]) {
        assert(token_prefix(s) =~= s.take(0));
    } else {
        lemma_token_prefix(s.drop_first());
        let t = token_prefix(s);
        let t1 = token_prefix(s.drop_first());
        assert(t =~= s.take(t.len() as int));
        assert forall|k: int| 0 <= k < t.len() implies !is_ws_char(#[trigger] s[k]) by {
            if k >= 1 {
                assert(!is_ws_char(s.drop_first()[k - 1]));
            }
        }
        if t1.len() < s.drop_first().len() {
            assert(is_ws_char(s.drop_first()[t1.len() as int]));
        }
    }
}

/// The whitespace-delimited tokens of `s`, in order, empties dropped.
pub open spec fn tokens(s: Seq<char>) -> Seq<Seq<char>>
    decreases s.len(),
    via tokens_decreases
{
    if s.len() == 0 {
        Seq::empty()
    } else if is_ws_char(s[0]) {
        tokens(s.drop_first())
    } else {
        seq![token_prefix(s)] + tokens(s.skip(token_prefix(s).len() as int))
    }
}

#[via_fn]
proof fn tokens_decreases(s: Seq<char>) {
    if s.len() > 0 && !is_ws_char(s[0]) {
        lemma_token_prefix(s);
    }
}

/// A non-empty run of non-whitespace characters: what every token is.
pub open spec fn token_wf(t: Seq<char>) -> bool {
    t.len() > 0 && forall|k: int| 0 <= k < t.len() ==> !is_ws_char(#[trigger] t[k])
}

/// Every element is a well-formed token.
pub open spec fn all_tokens_wf(ws: Seq<Seq<char>>) -> bool {
    forall|idx: int| 0 <= idx < ws.len() ==> token_wf(#[trigger] ws[idx])
}

/// One token of Pig Latin: a vowel-initial token keeps its characters and
/// gains `-hay`; any other token moves its first character to the end
/// between `-` and `ay`.
pub open spec fn pig_word(w: Seq<char>) -> Seq<char> {
    if w.len() > 0 && is_vowel_char(w[0]) {
        w + seq!['-', 'h', 'a', 'y']
    } else if w.len() > 0 {
        w.drop_first() + seq!['-', w[0], 'a', 'y']
    } else {
        w
    }
}

/// `pig_word` as a value, so that mapped sequences are stated uniformly.
pub open spec fn pig_word_fn() -> spec_fn(Seq<char>) -> Seq<char> {
    |w: Seq<char>| pig_word(w)
}

/// The words joined with single spaces, no leading or trailing separator.
pub open spec fn join_spaced(ws: Seq<Seq<char>>) -> Seq<char>
    decreases ws.len(),
{
    if ws.len() == 0 {
        Seq::empty()
    } else if ws.len() == 1 {
        ws[0]
    } else {
        ws[0] + seq![' '] + join_spaced(ws.drop_first())
    }
}

/// The whole transform: every token of the input turned into Pig Latin, the
/// results joined with single spaces.
pub open spec fn pig_latin_text(s: Seq<char>) -> Seq<char> {
    join_spaced(tokens(s).map_values(pig_word_fn()))
}

/// Appending one word extends the joined text by a separator (when anything
/// came before) and the word.
proof fn lemma_join_snoc(ws: Seq<Seq<char>>, w: Seq<char>)
    ensures
        ws.len() == 0 ==> join_spaced(ws.push(w)) == w,
        ws.len() > 0 ==> join_spaced(ws.push(w)) == join_spaced(ws) + seq![' '] + w,
    decreases ws.len(),
{
    if ws.len() == 0 {
        assert(ws.push(w)[0] == w);
    } else {
        lemma_join_snoc(ws.drop_first(), w);
        assert(ws.push(w).drop_first() =~= ws.drop_first().push(w));
        assert(ws.push(w)[0] == ws[0]);
        if ws.len() == 1 {
            assert(join_spaced(ws.push(w)) == ws[0] + seq![' '] + join_spaced(
                ws.drop_first().push(w),
            ));
            assert(join_spaced(ws) == ws[0]);
        } else {
            assert(join_spaced(ws) + seq![' '] + w =~= ws[0] + seq![' '] + (join_spaced(
                ws.drop_first(),
            ) + seq![' '] + w));
        }
    }
}

/// Skipping one leading separator leaves the tokens unchanged.
proof fn lemma_tokens_skip_ws(s: Seq<char>, i: int)
    requires
        0 <= i < s.len(),
        is_ws_char(s[i]),
    ensures
        tokens(s.skip(i)) == tokens(s.skip(i + 1)),
{
    assert(s.skip(i).drop_first() =~= s.skip(i + 1));
}

/// The maximal non-whitespace run starting at `i` is exactly `s[i .. j)`.
proof fn lemma_token_prefix_range(s: Seq<char>, i: int, j: int)
    requires
        0 <= i <= j <= s.len(),
        forall|k: int| i <= k < j ==> !is_ws_char(#[trigger] s[k]),
        j == s.len() || is_ws_char(s[j]),
    ensures
        token_prefix(s.skip(i)) == s.subrange(i, j),
{
    let t = token_prefix(s.skip(i));
    lemma_token_prefix(s.skip(i));
    if t.len() < j - i {
        assert(is_ws_char(s.skip(i)[t.len() as int]));
        assert(s.skip(i)[t.len() as int] == s[i + t.len()]);
        assert(false);
    }
    if t.len() > j - i {
        if j < s.len() {
            assert(!is_ws_char(s.skip(i)[j - i]));
            assert(s.skip(i)[j - i] == s[j]);
        }
        assert(false);
    }
    assert(t =~= s.subrange(i, j));
}

/// Taking the token that starts at `i` peels it off the token list.
proof fn lemma_tokens_step(s: Seq<char>, i: int, j: int)
    requires
        0 <= i < j <= s.len(),
        forall|k: int| i <= k < j ==> !is_ws_char(#[trigger] s[k]),
        j == s.len() || is_ws_char(s[j]),
    ensures
        tokens(s.skip(i)) == seq![s.subrange(i, j)] + tokens(s.skip(j)),
{
    lemma_token_prefix_range(s, i, j);
    assert(s.skip(i).len() > 0);
    assert(s.skip(i)[0] == s[i]);
    assert(!is_ws_char(s.skip(i)[0]));
    assert(s.skip(i).skip(j - i) =~= s.skip(j));
    assert(tokens(s.skip(i)) == seq![token_prefix(s.skip(i))] + tokens(
        s.skip(i).skip(token_prefix(s.skip(i)).len() as int),
    ));
}

/// Every token the tokenizer produces is non-empty and whitespace-free.
proof fn lemma_tokens_wf(s: Seq<char>)
    ensures
        all_tokens_wf(tokens(s)),
    decreases s.len(),
{
    if s.len() == 0 {
    } else if is_ws_char(s[0]) {
        lemma_tokens_wf(s.drop_first());
    } else {
        lemma_token_prefix(s);
        let t = token_prefix(s);
        lemma_tokens_wf(s.skip(t.len() as int));
        assert(token_wf(t));
        assert forall|idx: int| 0 <= idx < tokens(s).len() implies token_wf(
            #[trigger] tokens(s)[idx],
        ) by {
            if idx > 0 {
                assert(tokens(s)[idx] == tokens(s.skip(t.len() as int))[idx - 1]);
            }
        }
    }
}

/// A Pig Latin word of a well-formed token is itself non-empty and
/// whitespace-free.
proof fn lemma_pig_word_wf(w: Seq<char>)
    requires
        token_wf(w),
    ensures
        token_wf(pig_word(w)),
{
    let p = pig_word(w);
    assert forall|k: int| 0 <= k < p.len() implies !is_ws_char(#[trigger] p[k]) by {
        if w.len() > 0 && is_vowel_char(w[0]) {
            if k >= w.len() {
                assert(p[k] == seq!['-', 'h', 'a', 'y'][k - w.len()]);
            }
        } else {
            if k < w.len() - 1 {
                assert(p[k] == w[k + 1]);
            } else {
                assert(p[k] == seq!['-', w[0], 'a', 'y'][k - (w.len() - 1)]);
            }
        }
    }
}

/// Tokenizing a space-joined list of well-formed tokens gives the list
/// back.
proof fn lemma_join_tokens_inverse(ws: Seq<Seq<char>>)
    requires
        all_tokens_wf(ws),
    ensures
        tokens(join_spaced(ws)) == ws,
    decreases ws.len(),
{
    if ws.len() == 0 {
        assert(tokens(join_spaced(ws)) =~= ws);
    } else if ws.len() == 1 {
        let w = ws[0];
        assert(token_wf(w));
        lemma_token_prefix_range(w, 0, w.len() as int);
        assert(w.skip(0) =~= w);
        assert(token_prefix(w) == w.subrange(0, w.len() as int));
        assert(w.subrange(0, w.len() as int) =~= w);
        assert(w.skip(w.len() as int) =~= Seq::<char>::empty());
        assert(tokens(w) == seq![token_prefix(w)] + tokens(w.skip(token_prefix(w).len() as int)));
        assert(tokens(join_spaced(ws)) =~= ws);
    } else {
        let w = ws[0];
        let rest = ws.drop_first();
        let jt = join_spaced(ws);
        assert(token_wf(w));
        assert(jt == w + seq![' '] + join_spaced(rest));
        assert forall|k: int| 0 <= k < w.len() implies !is_ws_char(#[trigger] jt[k]) by {
            assert(jt[k] == w[k]);
        }
        assert(jt[w.len() as int] == ' ');
        lemma_tokens_step(jt, 0, w.len() as int);
        assert(jt.skip(0) =~= jt);
        assert(jt.subrange(0, w.len() as int) =~= w);
        lemma_tokens_skip_ws(jt, w.len() as int);
        assert(jt.skip(w.len() as int + 1) =~= join_spaced(rest));
        assert(all_tokens_wf(rest)) by {
            assert forall|idx: int| 0 <= idx < rest.len() implies token_wf(
                #[trigger] rest[idx],
            ) by {
                assert(rest[idx] == ws[idx + 1]);
            }
        }
        lemma_join_tokens_inverse(rest);
        assert(tokens(jt) =~= ws);
    }
}

/// Transforming a text to Pig Latin preserves the number of
/// whitespace-delimited tokens: tokenizing the output yields exactly as
/// many tokens as tokenizing the input.
pub proof fn lemma_pig_latin_token_count(s: Seq<char>)
    ensures
        tokens(pig_latin_text(s)).len() == tokens(s).len(),
{
    lemma_tokens_wf(s);
    let ts = tokens(s);
    let mapped = ts.map_values(pig_word_fn());
    assert forall|idx: int| 0 <= idx < mapped.len() implies token_wf(#[trigger] mapped[idx]) by {
        assert(token_wf(ts[idx]));
        lemma_pig_word_wf(ts[idx]);
    }
    lemma_join_tokens_inverse(mapped);
}

/// The Pig Latin transform of a whole text: each whitespace-delimited token
/// transformed, the results joined with single spaces, no leading or
/// trailing whitespace.
pub fn to_pig_latin(s: &str) -> (res: String)
    ensures
        res@ == pig_latin_text(s@),
{
    let n = s.unicode_len();
    let mut res = String::new();
    let mut first: bool = true;
    let ghost mut done: Seq<Seq<char>> = Seq::empty();
    let mut i: usize = 0;
    proof {
        assert(s@.skip(0) =~= s@);
        assert(done + tokens(s@.skip(0)) =~= tokens(s@));
        assert(done.map_values(pig_word_fn()) =~= Seq::<Seq<char>>::empty());
    }
    while i < n
        invariant
            n == s@.len(),
            i <= n,
            tokens(s@) == done + tokens(s@.skip(i as int)),
            res@ == join_spaced(done.map_values(pig_word_fn())),
            first == (done.len() == 0),
        decreases n - i,
    {
        let c = s.get_char(i);
        if is_whitespace_char(c) {
            proof {
                lemma_tokens_skip_ws(s@, i as int);
            }
            i += 1;
        } else {
            let mut j = i + 1;
            while j < n && !is_whitespace_char(s.get_char(j))
                invariant
                    n == s@.len(),
                    i < j <= n,
                    forall|k: int| i <= k < j ==> !is_ws_char(#[trigger] s@[k]),
                decreases n - j,
            {
                j += 1;
            }
            let ghost w = s@.subrange(i as int, j as int);
            let ghost prev = done.map_values(pig_word_fn());
            if !first {
                res.append(" ");
            }
            first = false;
            if is_vowel(c) {
                let word = s.substring_char(i, j);
                res.append(word);
                res.append("-hay");
            } else {
                let rest = s.substring_char(i + 1, j);
                res.append(rest);
                res.append("-");
                let head = s.substring_char(i, i + 1);
                res.append(head);
                res.append("ay");
            }
            proof {
                reveal_strlit(" ");
                reveal_strlit("-hay");
                reveal_strlit("-");
                reveal_strlit("ay");
                assert(" "@ =~= seq![' ']);
                assert("-hay"@ =~= seq!['-', 'h', 'a', 'y']);
                assert("-"@ =~= seq!['-']);
                assert("ay"@ =~= seq!['a', 'y']);
                assert(w[0] == s@[i as int]);
                if is_vowel_char(s@[i as int]) {
                    assert(pig_word(w) == w + seq!['-', 'h', 'a', 'y']);
                } else {
                    assert(s@.subrange(i as int + 1, j as int) =~= w.drop_first());
                    assert(s@.subrange(i as int, i as int + 1) =~= seq![w[0]]);
                    assert(w.drop_first() + seq!['-'] + seq![w[0]] + seq!['a', 'y']
                        =~= w.drop_first() + seq!['-', w[0], 'a', 'y']);
                }
                lemma_join_snoc(prev, pig_word(w));
                lemma_tokens_step(s@, i as int, j as int);
                done = done + seq![w];
                assert(done.map_values(pig_word_fn()) =~= prev.push(pig_word(w)));
                if prev.len() == 0 {
                    assert(res@ =~= pig_word(w));
                } else {
                    assert(res@ =~= join_spaced(prev) + seq![' '] + pig_word(w));
                }
                assert(done + tokens(s@.skip(j as int)) =~= tokens(s@));
            }
            i = j;
        }
    }
    proof {
        assert(s@.skip(n as int) =~= Seq::<char>::empty());
        assert(done + tokens(s@.skip(n as int)) =~= done);
    }
    res
}

} // verus!
