use vstd::prelude::*;
use vstd::string::{StrSliceExecFns, StringExecFns};
use crate::strfmt::push_char;
use crate::targets::{is_space, is_space_char};

verus! {

/// Length of the maximal non-whitespace prefix of the text.
pub open spec fn word_end(s: Seq<char>) -> nat
    decreases s.len(),
{
    if s.len() == 0 {
        0
    } else if is_space_char(s[0]) {
        0
    } else {
        1 + word_end(s.drop_first())
    }
}

/// The text split on whitespace: its maximal non-whitespace runs, in
/// order.
pub open spec fn split_words_model(s: Seq<char>) -> Seq<Seq<char>>
    decreases s.len(),
    via split_words_model_dec
{
    if s.len() == 0 {
        Seq::empty()
    } else if is_space_char(s[0]) {
        split_words_model(s.drop_first())
    } else {
        seq![s.take(word_end(s) as int)] + split_words_model(s.skip(word_end(s) as int))
    }
}

proof fn lemma_word_end_le(s: Seq<char>)
    ensures
        word_end(s) <= s.len(),
    decreases s.len(),
{
    if s.len() > 0 && !is_space_char(s[0]) {
        lemma_word_end_le(s.drop_first());
    }
}

#[via_fn]
proof fn split_words_model_dec(s: Seq<char>) {
    if s.len() > 0 && !is_space_char(s[0]) {
        lemma_word_end_le(s);
        assert(word_end(s) == 1 + word_end(s.drop_first()));
    }
}

proof fn lemma_word_end_concat(w: Seq<char>, r: Seq<char>)
    requires
        forall|i: int| 0 <= i < w.len() ==> !is_space_char(#[trigger] w[i]),
        r.len() == 0 || is_space_char(r[0]),
    ensures
        word_end(w + r) == w.len(),
    decreases w.len(),
{
    if w.len() == 0 {
        assert(w + r =~= r);
    } else {
        assert((w + r)[0] == w[0]);
        assert((w + r).drop_first() =~= w.drop_first() + r);
        lemma_word_end_concat(w.drop_first(), r);
    }
}

proof fn lemma_split_word_then_space(cur: Seq<char>, c: char, rest: Seq<char>)
    requires
        cur.len() > 0,
        forall|i: int| 0 <= i < cur.len() ==> !is_space_char(#[trigger] cur[i]),
        is_space_char(c),
    ensures
        split_words_model(cur + seq![c] + rest) == seq![cur] + split_words_model(rest),
{
    let arg = cur + seq![c] + rest;
    assert(arg =~= cur + (seq![c] + rest));
    lemma_word_end_concat(cur, seq![c] + rest);
    assert(word_end(arg) == cur.len());
    assert(!is_space_char(arg[0]));
    assert(arg.take(cur.len() as int) =~= cur);
    assert(arg.skip(cur.len() as int) =~= seq![c] + rest);
    assert((seq![c] + rest).drop_first() =~= rest);
    assert(split_words_model(seq![c] + rest) == split_words_model(rest));
}

proof fn lemma_split_single_word(cur: Seq<char>)
    requires
        cur.len() > 0,
        forall|i: int| 0 <= i < cur.len() ==> !is_space_char(#[trigger] cur[i]),
    ensures
        split_words_model(cur) == seq![cur],
    decreases cur.len(),
{
    lemma_word_end_concat(cur, Seq::empty());
    assert(cur + Seq::<char>::empty() =~= cur);
    assert(word_end(cur) == cur.len());
    assert(cur.take(cur.len() as int) =~= cur);
    assert(cur.skip(cur.len() as int) =~= Seq::<char>::empty());
    assert(seq![cur] + split_words_model(Seq::<char>::empty()) =~= seq![cur]);
}

/// Splits the text into its whitespace-separated words, in order.
pub fn split_words(text: &str) -> (words: Vec<String>)
    ensures
        words@.map_values(|w: String| w@) == split_words_model(text@),
{
    let n = text.unicode_len();
    let mut acc: Vec<String> = Vec::new();
    let mut cur = String::new();
    let mut i: usize = 0;
    proof {
        assert(text@.skip(0) =~= text@);
        assert(cur@ + text@ =~= text@);
        assert(acc@.map_values(|w: String| w@) + split_words_model(text@) =~= split_words_model(
            text@,
        ));
    }
    while i < n
        invariant
            n == text@.len(),
            i <= n,
            forall|k: int| 0 <= k < cur@.len() ==> !is_space_char(#[trigger] cur@[k]),
            acc@.map_values(|w: String| w@) + split_words_model(cur@ + text@.skip(i as int))
                == split_words_model(text@),
        decreases n - i,
    {
        let c = text.get_char(i);
        proof {
            assert(text@.skip(i as int)[0] == text@[i as int]);
            assert(text@.skip(i as int).drop_first() =~= text@.skip(i + 1));
        }
        if is_space(c) {
            if cur.as_str().is_empty() {
                proof {
                    assert(cur@ + text@.skip(i as int) =~= text@.skip(i as int));
                    assert((cur@ + text@.skip(i + 1)) =~= text@.skip(i + 1));
                    assert(split_words_model(text@.skip(i as int)) == split_words_model(
                        text@.skip(i + 1),
                    ));
                }
            } else {
                proof {
                    assert(cur@ + text@.skip(i as int) =~= cur@ + seq![text@[i as int]]
                        + text@.skip(i + 1));
                    lemma_split_word_then_space(cur@, text@[i as int], text@.skip(i + 1));
                }
                let ghost prev_acc = acc@;
                let ghost curv = cur@;
                acc.push(cur);
                cur = String::new();
                proof {
                    assert(acc@.map_values(|w: String| w@) =~= prev_acc.map_values(
                        |w: String| w@,
                    ).push(curv));
                    assert(prev_acc.map_values(|w: String| w@).push(curv) + split_words_model(
                        text@.skip(i + 1),
                    ) =~= prev_acc.map_values(|w: String| w@) + (seq![curv] + split_words_model(
                        text@.skip(i + 1),
                    )));
                    assert(cur@ + text@.skip(i + 1) =~= text@.skip(i + 1));
                }
            }
        } else {
            let ghost prev_cur = cur@;
            push_char(&mut cur, c);
            proof {
                assert(cur@ + text@.skip(i + 1) =~= prev_cur + text@.skip(i as int));
            }
        }
        i = i + 1;
    }
    proof {
        assert(text@.skip(n as int) =~= Seq::<char>::empty());
    }
    if !cur.as_str().is_empty() {
        proof {
            assert(cur@ + text@.skip(n as int) =~= cur@);
            lemma_split_single_word(cur@);
        }
        let ghost prev_acc = acc@;
        let ghost curv = cur@;
        acc.push(cur);
        proof {
            assert(acc@.map_values(|w: String| w@) =~= prev_acc.map_values(|w: String| w@).push(
                curv,
            ));
            assert(prev_acc.map_values(|w: String| w@).push(curv) =~= prev_acc.map_values(
                |w: String| w@,
            ) + seq![curv]);
            assert(acc@.map_values(|w: String| w@) =~= split_words_model(text@));
        }
    } else {
        proof {
            assert(cur@ + text@.skip(n as int) =~= Seq::<char>::empty());
            assert(acc@.map_values(|w: String| w@) =~= split_words_model(text@));
        }
    }
    acc
}

/// How many of the first `n` words equal `w`.
pub open spec fn count_in(ws: Seq<Seq<char>>, w: Seq<char>) -> nat
    decreases ws.len(),
{
    if ws.len() == 0 {
        0
    } else {
        count_in(ws.drop_last(), w) + (if ws.last() == w {
            1nat
        } else {
            0nat
        })
    }
}

/// Which occurrence of its own word the position `j` is: the count of
/// `ws[j]` among the words up to and including position `j`.
pub open spec fn occ_number(ws: Seq<Seq<char>>, j: int) -> nat {
    count_in(ws.take(j + 1), ws[j])
}

proof fn lemma_count_prefix_le(ws: Seq<Seq<char>>, w: Seq<char>, i: int)
    requires
        0 <= i <= ws.len(),
    ensures
        count_in(ws.take(i), w) <= count_in(ws, w),
    decreases ws.len() - i,
{
    if i < ws.len() {
        lemma_count_prefix_le(ws, w, i + 1);
        assert(ws.take(i + 1).drop_last() =~= ws.take(i));
    } else {
        assert(ws.take(i) =~= ws);
    }
}

proof fn lemma_last_occurrence(ws: Seq<Seq<char>>, w: Seq<char>)
    requires
        count_in(ws, w) > 0,
    ensures
        exists|j: int|
            0 <= j < ws.len() && ws[j] == w && occ_number(ws, j) == count_in(ws, w),
    decreases ws.len(),
{
    if ws.last() == w {
        let j = ws.len() - 1;
        assert(ws.take(j + 1) =~= ws);
        assert(occ_number(ws, j) == count_in(ws, w));
    } else {
        lemma_last_occurrence(ws.drop_last(), w);
        let j = choose|j: int|
            0 <= j < ws.drop_last().len() && ws.drop_last()[j] == w && occ_number(
                ws.drop_last(),
                j,
            ) == count_in(ws.drop_last(), w);
        assert(ws.drop_last().take(j + 1) =~= ws.take(j + 1));
        assert(occ_number(ws, j) == count_in(ws, w));
    }
}

/// The frequency most_frequent_word returns is the true occurrence count
/// of the returned word, and no word of the text occurs more often.
pub proof fn lemma_most_frequent_is_max(ws: Seq<Seq<char>>, word: Seq<char>, freq: nat)
    requires
        freq > 0,
        exists|bj: int| 0 <= bj < ws.len() && ws[bj] == word && occ_number(ws, bj) == freq,
        forall|j: int| 0 <= j < ws.len() ==> occ_number(ws, j) <= freq,
    ensures
        count_in(ws, word) == freq,
        forall|w: Seq<char>| #[trigger] count_in(ws, w) <= freq,
{
    let bj = choose|bj: int| 0 <= bj < ws.len() && ws[bj] == word && occ_number(ws, bj) == freq;
    lemma_count_prefix_le(ws, word, bj + 1);
    assert(count_in(ws, word) >= freq);
    assert forall|w: Seq<char>| #[trigger] count_in(ws, w) <= freq by {
        if count_in(ws, w) > 0 {
            lemma_last_occurrence(ws, w);
        }
    }
}

fn count_prefix(words: &Vec<String>, j: usize) -> (c: usize)
    requires
        j < words@.len(),
    ensures
        c == occ_number(words@.map_values(|w: String| w@), j as int),
{
    let ghost ws = words@.map_values(|w: String| w@);
    let len = words.len();
    let mut cnt: usize = 0;
    let mut k: usize = 0;
    while k <= j
        invariant
            j < len,
            len == words@.len(),
            ws == words@.map_values(|w: String| w@),
            k <= j + 1,
            cnt <= k,
            cnt == count_in(ws.take(k as int), ws[j as int]),
        decreases j + 1 - k,
    {
        proof {
            assert(ws.take(k + 1).drop_last() =~= ws.take(k as int));
            assert(ws.take(k + 1).last() == ws[k as int]);
        }
        if words[k] == words[j] {
            cnt = cnt + 1;
        }
        k = k + 1;
    }
    cnt
}

/// The most frequent word of the text, with its frequency, where only a
/// word seen at least twice counts: the returned word is the first to
/// reach the winning occurrence count as the text is read left to right,
/// and a text with no repeated word yields the empty word with frequency
/// zero.
pub fn most_frequent_word(text: &str) -> (r: (String, usize))
    ensures
        ({
            let ws = split_words_model(text@);
            &&& (r.1 == 0 ==> r.0@ == Seq::<char>::empty() && (forall|j: int|
                0 <= j < ws.len() ==> occ_number(ws, j) <= 1))
            &&& (r.1 > 0 ==> r.1 >= 2 && (forall|j: int|
                0 <= j < ws.len() ==> occ_number(ws, j) <= r.1) && (exists|bj: int|
                0 <= bj < ws.len() && ws[bj] == r.0@ && occ_number(ws, bj) == r.1 && (forall|
                    j: int,
                |
                    0 <= j < bj ==> occ_number(ws, j) < r.1)))
        }),
{
    let words = split_words(text);
    let ghost ws = words@.map_values(|w: String| w@);
    let mut best_word = String::new();
    let mut best: usize = 0;
    let ghost mut best_j: int = 0;
    let n = words.len();
    let mut j: usize = 0;
    while j < n
        invariant
            n == words@.len(),
            j <= n,
            ws == words@.map_values(|w: String| w@),
            best == 0 ==> best_word@ == Seq::<char>::empty() && (forall|i: int|
                0 <= i < j ==> occ_number(ws, i) <= 1),
            best > 0 ==> best >= 2 && 0 <= best_j < j && ws[best_j] == best_word@ && occ_number(
                ws,
                best_j,
            ) == best && (forall|i: int| 0 <= i < best_j ==> occ_number(ws, i) < best) && (forall|
                i: int,
            |
                0 <= i < j ==> occ_number(ws, i) <= best),
        decreases n - j,
    {
        let c = count_prefix(&words, j);
        if c >= 2 && c > best {
            best = c;
            best_word = words[j].clone();
            proof {
                best_j = j as int;
            }
        }
        j = j + 1;
    }
    (best_word, best)
}

} // verus!
