//! Splitting a long answer into messages that Discord accepts.

use crate::text::{
    byte_len, is_white_space, leading_space, leading_word, lemma_leading_space, lemma_leading_word,
    split_words, texts, utf8_len, words,
};
use vstd::prelude::*;
use vstd::string::{StringExecFns, StrSliceExecFns};

verus! {

/// Words one after the other, with one space between them.
pub open spec fn joined(line: Seq<Seq<char>>) -> Seq<char>
    decreases line.len(),
{
    if line.len() == 0 {
        Seq::empty()
    } else if line.len() == 1 {
        line[0]
    } else {
        joined(line.drop_last()).push(' ') + line.last()
    }
}

/// There is room for `word` at the end of `line`: with a space and the word the
/// line takes at most `max` bytes.
pub open spec fn fits(line: Seq<Seq<char>>, word: Seq<char>, max: nat) -> bool {
    utf8_len(joined(line)) + 1 + utf8_len(word) <= max
}

/// The words put into lines, each word on the line of the word before it where
/// there is room and on a line of its own where there is none.
pub open spec fn lines(ws: Seq<Seq<char>>, max: nat) -> Seq<Seq<Seq<char>>>
    decreases ws.len(),
{
    if ws.len() == 0 {
        Seq::empty()
    } else {
        let before = lines(ws.drop_last(), max);
        if before.len() > 0 && fits(before.last(), ws.last(), max) {
            before.drop_last().push(before.last().push(ws.last()))
        } else {
            before.push(seq![ws.last()])
        }
    }
}

/// The messages that a text is sent as: the text itself if it has at most `max`
/// characters, else its words in lines of at most `max` bytes.
pub open spec fn chunks(text: Seq<char>, max: nat) -> Seq<Seq<char>> {
    if text.len() <= max {
        seq![text]
    } else {
        lines(words(text), max).map_values(|line: Seq<Seq<char>>| joined(line))
    }
}

/// Splits `text` into messages, between words.
pub fn split_message(text: &str, max_len: usize) -> (r: Vec<String>)
    ensures
        texts(r@) == chunks(text@, max_len as nat),
        text@.len() <= max_len ==> r@.len() == 1 && r@[0]@ == text@,
{
    let ghost max = max_len as nat;
    if text.unicode_len() <= max_len {
        let mut whole: Vec<String> = Vec::new();
        whole.push(text.to_owned());
        assert(texts(whole@) == seq![text@]);
        assert(texts(whole@)[0] == whole@[0]@);
        return whole;
    }
    let ws = split_words(text);
    let mut done: Vec<String> = Vec::new();
    let mut current: String = String::new();
    let mut i: usize = 0;
    let ghost all = words(text@);
    proof {
        lemma_words_are_words(text@);
        assert(all.take(0) == Seq::<Seq<char>>::empty());
        assert(texts(done@) == joined_lines(lines(all.take(0), max)));
    }
    while i < ws.len()
        invariant
            max == max_len as nat,
            texts(ws@) == all,
            all_words(all),
            i <= ws.len(),
            i == 0 ==> current@.len() == 0 && texts(done@) == joined_lines(lines(all.take(0), max)),
            i > 0 ==> {
                let so_far = lines(all.take(i as int), max);
                &&& so_far.len() > 0
                &&& so_far.last().len() > 0
                &&& all_words(so_far.last())
                &&& current@ == joined(so_far.last())
                &&& texts(done@) == joined_lines(so_far.drop_last())
            },
        decreases ws.len() - i,
    {
        let ghost before = lines(all.take(i as int), max);
        let ghost word = all[i as int];
        proof {
            assert(all.take(i + 1).drop_last() == all.take(i as int));
            assert(all.take(i + 1).last() == word);
            assert(ws@[i as int]@ == word);
            if i > 0 {
                lemma_joined_not_empty(before.last());
            }
        }
        if !current.as_str().is_empty() && byte_len(current.as_str()) as u128 + byte_len(
            ws[i].as_str(),
        ) as u128 + 1 > max_len as u128 {
            let ghost old_done = done@;
            done.push(current);
            proof {
                assert(texts(done@) == texts(old_done).push(joined(before.last())));
                assert(joined_lines(before) == joined_lines(before.drop_last()).push(
                    joined(before.last()),
                ));
            }
            current = String::new();
        }
        if !current.as_str().is_empty() {
            current.push(' ');
        }
        let ghost spaced = current@;
        current.append(ws[i].as_str());
        i += 1;
        proof {
            let now = lines(all.take(i as int), max);
            if before.len() > 0 && fits(before.last(), word, max) {
                assert(before.last().push(word).drop_last() == before.last());
                assert(now.drop_last() == before.drop_last());
                assert(now.last() == before.last().push(word));
                assert(spaced == joined(before.last()).push(' '));
                assert(current@ == joined(now.last()));
            } else {
                assert(now.drop_last() == before);
                assert(now.last() == seq![word]);
                assert(spaced == Seq::<char>::empty());
                assert(current@ == word);
                assert(current@ == joined(now.last()));
            }
        }
    }
    assert(all.take(all.len() as int) == all);
    proof {
        if i > 0 {
            let so_far = lines(all, max);
            lemma_joined_not_empty(so_far.last());
            assert(joined_lines(so_far) == joined_lines(so_far.drop_last()).push(
                joined(so_far.last()),
            ));
        }
    }
    if !current.as_str().is_empty() {
        let ghost old_done = done@;
        done.push(current);
        assert(texts(done@) == texts(old_done).push(current@));
    }
    done
}

/// Lines as texts.
pub open spec fn joined_lines(ls: Seq<Seq<Seq<char>>>) -> Seq<Seq<char>> {
    ls.map_values(|line: Seq<Seq<char>>| joined(line))
}

/// Every element is a word: not empty, and without white space.
pub open spec fn all_words(ws: Seq<Seq<char>>) -> bool {
    forall|i: int| 0 <= i < ws.len() ==> is_word(#[trigger] ws[i])
}

/// A text that is not empty and holds no white space.
pub open spec fn is_word(w: Seq<char>) -> bool {
    &&& w.len() > 0
    &&& forall|i: int| 0 <= i < w.len() ==> !is_white_space(#[trigger] w[i])
}

/// The words of a text are words.
proof fn lemma_words_are_words(s: Seq<char>)
    ensures
        all_words(words(s)),
    decreases s.len(),
{
    let t = s.skip(leading_space(s) as int);
    lemma_leading_space(s);
    if t.len() > 0 {
        lemma_leading_word(t);
        let n = leading_word(t) as int;
        assert(t[0] == s[leading_space(s) as int]);
        lemma_words_are_words(t.skip(n));
        assert(words(s) == seq![t.take(n)] + words(t.skip(n)));
        assert forall|i: int| 0 <= i < words(s).len() implies is_word(#[trigger] words(s)[i]) by {
            if i > 0 {
                assert(words(s)[i] == words(t.skip(n))[i - 1]);
            }
        }
    }
}

proof fn lemma_joined_not_empty(line: Seq<Seq<char>>)
    requires
        line.len() > 0,
        all_words(line),
    ensures
        joined(line).len() > 0,
{
    assert(is_word(line[0]));
}

/// A word is the only word of itself.
proof fn lemma_words_of_word(w: Seq<char>)
    requires
        is_word(w),
    ensures
        words(w) == seq![w],
{
    lemma_leading_space(w);
    assert(leading_space(w) == 0) by {
        if leading_space(w) > 0 {
            assert(is_white_space(w[0]));
        }
    }
    assert(w.skip(0) == w);
    lemma_leading_word(w);
    assert(leading_word(w) == w.len());
    assert(w.take(w.len() as int) == w);
    let rest = w.skip(w.len() as int);
    assert(rest == Seq::<char>::empty());
    lemma_leading_space(rest);
    assert(words(rest) == Seq::<Seq<char>>::empty());
    assert(words(w) == seq![w] + words(rest));
    assert(words(w) == seq![w]);
}

/// The words of two texts with white space between them are the words of the
/// first and then those of the second.
proof fn lemma_words_around_space(a: Seq<char>, c: char, b: Seq<char>)
    requires
        is_white_space(c),
    ensures
        words(a.push(c) + b) == words(a) + words(b),
    decreases a.len(),
{
    let s = a.push(c) + b;
    let n = leading_space(a) as int;
    lemma_leading_space(a);
    lemma_leading_space(b);
    lemma_leading_space(s);
    let m = leading_space(s) as int;
    if n == a.len() {
        assert(a.skip(n).len() == 0);
        assert(words(a) == Seq::<Seq<char>>::empty());
        let k = (a.len() + 1 + leading_space(b)) as int;
        assert forall|i: int| 0 <= i < k implies is_white_space(#[trigger] s[i]) by {
            if i < a.len() {
                assert(s[i] == a[i]);
            } else if i > a.len() {
                assert(s[i] == b[i - a.len() - 1]);
            }
        }
        assert(k < s.len() ==> s[k] == b[leading_space(b) as int]);
        assert(m == k) by {
            if m < k {
                assert(is_white_space(s[m]));
            } else if m > k {
                assert(is_white_space(s[k]));
            }
        }
        assert(s.skip(m) == b.skip(leading_space(b) as int));
        assert(words(s) == words(b));
        assert(words(a) + words(b) == words(b));
    } else {
        assert forall|i: int| 0 <= i < n implies is_white_space(#[trigger] s[i]) by {
            assert(s[i] == a[i]);
        }
        assert(s[n] == a[n]);
        assert(m == n) by {
            if m < n {
                assert(is_white_space(s[m]));
            } else if m > n {
                assert(is_white_space(s[n]));
            }
        }
        let ta = a.skip(n);
        let ts = s.skip(n);
        assert(ts == ta.push(c) + b);
        assert(ta[0] == a[n]);
        lemma_leading_word(ta);
        lemma_leading_word(ts);
        let p = leading_word(ta) as int;
        let q = leading_word(ts) as int;
        assert(ts[p] == (if p < ta.len() { ta[p] } else { c }));
        assert(p == q) by {
            if q < p {
                assert(ts[q] == ta[q]);
            } else if q > p {
                assert(!is_white_space(ts[p]));
            }
        }
        assert(ts.take(p) == ta.take(p));
        assert(ts.skip(p) == ta.skip(p).push(c) + b);
        lemma_words_around_space(ta.skip(p), c, b);
        assert(words(s) == seq![ts.take(p)] + words(ts.skip(p)));
        assert(words(a) == seq![ta.take(p)] + words(ta.skip(p)));
        assert(words(a) + words(b) == seq![ta.take(p)] + (words(ta.skip(p)) + words(b)));
    }
}

/// The words of a line are the words that were put on it.
proof fn lemma_words_of_line(line: Seq<Seq<char>>)
    requires
        line.len() > 0,
        all_words(line),
    ensures
        words(joined(line)) == line,
    decreases line.len(),
{
    if line.len() == 1 {
        lemma_words_of_word(line[0]);
        assert(seq![line[0]] == line);
    } else {
        let front = line.drop_last();
        assert forall|i: int| 0 <= i < front.len() implies is_word(#[trigger] front[i]) by {
            assert(front[i] == line[i]);
        }
        lemma_words_of_line(front);
        assert(is_word(line[line.len() - 1]));
        lemma_words_of_word(line.last());
        lemma_words_around_space(joined(front), ' ', line.last());
        assert(front + seq![line.last()] == line);
    }
}

/// Every word is on one line, in order; no line is empty, and one of several
/// words takes at most `max` bytes.
proof fn lemma_lines(ws: Seq<Seq<char>>, max: nat)
    requires
        all_words(ws),
    ensures
        lines(ws, max).flatten() == ws,
        forall|i: int|
            0 <= i < lines(ws, max).len() ==> {
                let line = #[trigger] lines(ws, max)[i];
                &&& line.len() > 0
                &&& all_words(line)
                &&& line.len() == 1 || utf8_len(joined(line)) <= max
            },
    decreases ws.len(),
{
    if ws.len() == 0 {
        assert(lines(ws, max).flatten() == ws);
    } else {
        let front = ws.drop_last();
        let w = ws.last();
        assert(is_word(ws[ws.len() - 1]));
        assert forall|i: int| 0 <= i < front.len() implies is_word(#[trigger] front[i]) by {
            assert(front[i] == ws[i]);
        }
        lemma_lines(front, max);
        let before = lines(front, max);
        let now = lines(ws, max);
        assert(front.push(w) == ws);
        if before.len() > 0 && fits(before.last(), w, max) {
            let last = before.last();
            assert(last == before[before.len() - 1]);
            before.drop_last().lemma_flatten_push(last);
            assert(before.drop_last().push(last) == before);
            before.drop_last().lemma_flatten_push(last.push(w));
            assert(before.drop_last().flatten() + last.push(w) == (before.drop_last().flatten()
                + last).push(w));
            assert(last.push(w).drop_last() == last);
            lemma_utf8_len_concat(joined(last).push(' '), w);
            lemma_utf8_len_concat(joined(last), seq![' ']);
            assert(joined(last).push(' ') == joined(last) + seq![' ']);
            lemma_utf8_len_space();
            assert forall|i: int| 0 <= i < now.len() implies {
                let line = #[trigger] now[i];
                &&& line.len() > 0
                &&& all_words(line)
                &&& line.len() == 1 || utf8_len(joined(line)) <= max
            } by {
                if i < now.len() - 1 {
                    assert(now[i] == before[i]);
                } else {
                    assert(now[i] == last.push(w));
                    assert forall|j: int| 0 <= j < last.push(w).len() implies is_word(
                        #[trigger] last.push(w)[j],
                    ) by {
                        if j < last.len() {
                            assert(last.push(w)[j] == last[j]);
                        }
                    }
                }
            }
        } else {
            before.lemma_flatten_push(seq![w]);
            assert(front + seq![w] == ws);
            assert forall|i: int| 0 <= i < now.len() implies {
                let line = #[trigger] now[i];
                &&& line.len() > 0
                &&& all_words(line)
                &&& line.len() == 1 || utf8_len(joined(line)) <= max
            } by {
                if i < now.len() - 1 {
                    assert(now[i] == before[i]);
                } else {
                    assert(now[i] == seq![w]);
                }
            }
        }
    }
}

/// No line has room for the first word of the line after it.
proof fn lemma_lines_are_full(ws: Seq<Seq<char>>, max: nat)
    requires
        all_words(ws),
    ensures
        forall|i: int|
            0 <= i < lines(ws, max).len() - 1 ==> !fits(
                #[trigger] lines(ws, max)[i],
                lines(ws, max)[i + 1][0],
                max,
            ),
    decreases ws.len(),
{
    if ws.len() > 0 {
        let front = ws.drop_last();
        let w = ws.last();
        assert forall|i: int| 0 <= i < front.len() implies is_word(#[trigger] front[i]) by {
            assert(front[i] == ws[i]);
        }
        lemma_lines_are_full(front, max);
        lemma_lines(front, max);
        let before = lines(front, max);
        let now = lines(ws, max);
        assert forall|i: int| 0 <= i < now.len() - 1 implies !fits(
            #[trigger] now[i],
            now[i + 1][0],
            max,
        ) by {
            assert(now[i] == before[i]);
            if i + 1 < before.len() {
                assert(before[i + 1].len() > 0);
                assert(now[i + 1][0] == before[i + 1][0]);
            } else {
                assert(now[i + 1] == seq![w]);
                assert(before.last() == before[i]);
            }
        }
    }
}

proof fn lemma_utf8_len_concat(a: Seq<char>, b: Seq<char>)
    ensures
        utf8_len(a + b) == utf8_len(a) + utf8_len(b),
    decreases a.len(),
{
    if a.len() == 0 {
        assert(a + b == b);
    } else {
        lemma_utf8_len_concat(a.drop_first(), b);
        assert((a + b).drop_first() == a.drop_first() + b);
        assert((a + b)[0] == a[0]);
    }
}

proof fn lemma_utf8_len_space()
    ensures
        utf8_len(seq![' ']) == 1,
{
    let s = seq![' '];
    assert(s.drop_first() == Seq::<char>::empty());
    assert(utf8_len(s.drop_first()) == 0);
}

/// A text has no more characters than it takes bytes.
proof fn lemma_utf8_len_at_least(s: Seq<char>)
    ensures
        s.len() <= utf8_len(s),
    decreases s.len(),
{
    if s.len() > 0 {
        lemma_utf8_len_at_least(s.drop_first());
    }
}

/// Splitting loses no word, adds none and keeps their order: the words of the
/// chunks, one chunk after the other, are the words of the text.
pub proof fn split_keeps_words(text: Seq<char>, max: nat)
    ensures
        chunks(text, max).map_values(|chunk: Seq<char>| words(chunk)).flatten() == words(text),
{
    let by_chunk = chunks(text, max).map_values(|chunk: Seq<char>| words(chunk));
    if text.len() <= max {
        assert(by_chunk == seq![words(text)]);
        by_chunk.lemma_flatten_one_element();
    } else {
        lemma_words_are_words(text);
        lemma_lines(words(text), max);
        let ls = lines(words(text), max);
        assert forall|i: int| 0 <= i < ls.len() implies by_chunk[i] == ls[i] by {
            lemma_words_of_line(ls[i]);
        }
        assert(by_chunk == ls);
    }
}

/// A chunk has at most `max` characters, or it is a single word. Where the text
/// had to be split, it takes at most `max` bytes unless it is a single word, and
/// it is not empty.
pub proof fn chunks_fit(text: Seq<char>, max: nat, i: int)
    requires
        0 <= i < chunks(text, max).len(),
    ensures
        chunks(text, max)[i].len() <= max || is_word(chunks(text, max)[i]),
        text.len() > max ==> {
            &&& chunks(text, max)[i].len() > 0
            &&& utf8_len(chunks(text, max)[i]) <= max || is_word(chunks(text, max)[i])
        },
        text.len() > max && utf8_len(chunks(text, max)[i]) > max ==> forall|k: int|
            0 <= k < chunks(text, max)[i].len() ==> !is_white_space(
                #[trigger] chunks(text, max)[i][k],
            ),
{
    if text.len() > max {
        lemma_words_are_words(text);
        lemma_lines(words(text), max);
        let line = lines(words(text), max)[i];
        lemma_joined_not_empty(line);
        lemma_utf8_len_at_least(joined(line));
        if line.len() == 1 {
            assert(is_word(line[0]));
        }
    }
}

/// No break comes early: the first word of a chunk would not have fitted on the
/// chunk before it.
pub proof fn chunks_are_full(text: Seq<char>, max: nat, i: int)
    requires
        0 <= i < chunks(text, max).len() - 1,
    ensures
        words(chunks(text, max)[i + 1]).len() > 0,
        utf8_len(chunks(text, max)[i]) + 1 + utf8_len(words(chunks(text, max)[i + 1])[0]) > max,
{
    lemma_words_are_words(text);
    lemma_lines(words(text), max);
    lemma_lines_are_full(words(text), max);
    let ls = lines(words(text), max);
    assert(ls[i].len() > 0);
    lemma_words_of_line(ls[i + 1]);
}

/// Words that can go out together: a single word, or words that take at most `max`
/// bytes with one space between them.
pub open spec fn goes_together(group: Seq<Seq<char>>, max: nat) -> bool {
    group.len() == 1 || utf8_len(joined(group)) <= max
}

/// Every group can go out together.
pub open spec fn all_go_together(groups: Seq<Seq<Seq<char>>>, max: nat) -> bool {
    forall|i: int| 0 <= i < groups.len() ==> goes_together(#[trigger] groups[i], max)
}

/// The last words of a line take no more bytes than the line.
proof fn lemma_end_of_line(line: Seq<Seq<char>>, from: int)
    requires
        0 <= from < line.len(),
    ensures
        utf8_len(joined(line.skip(from))) <= utf8_len(joined(line)),
    decreases line.len(),
{
    let end = line.skip(from);
    if from == 0 {
        assert(end == line);
    } else {
        let front = line.drop_last();
        lemma_utf8_len_concat(joined(front).push(' '), line.last());
        if end.len() > 1 {
            lemma_end_of_line(front, from);
            assert(end.drop_last() == front.skip(from));
            lemma_utf8_len_concat(joined(end.drop_last()).push(' '), line.last());
            lemma_utf8_len_push(joined(front));
            lemma_utf8_len_push(joined(end.drop_last()));
        }
    }
}

proof fn lemma_utf8_len_push(s: Seq<char>)
    ensures
        utf8_len(s.push(' ')) == utf8_len(s) + 1,
{
    lemma_utf8_len_concat(s, seq![' ']);
    lemma_utf8_len_space();
    assert(s.push(' ') == s + seq![' ']);
}

/// No groups of the same words that can go out together are fewer than the lines,
/// and where they are as many, the last line is not longer than the last group.
proof fn lemma_lines_are_fewest(ws: Seq<Seq<char>>, max: nat, groups: Seq<Seq<Seq<char>>>)
    requires
        all_words(ws),
        groups.flatten() == ws,
        all_go_together(groups, max),
    ensures
        lines(ws, max).len() <= groups.len(),
        ws.len() > 0 && lines(ws, max).len() == groups.len() ==> lines(ws, max).last().len()
            <= groups.last().len(),
    decreases ws.len(), groups.len(),
{
    if ws.len() > 0 {
        if groups.len() == 0 {
            assert(groups.flatten() == Seq::<Seq<char>>::empty());
        } else {
            let init = groups.drop_last();
            let group = groups.last();
            assert(init.push(group) == groups);
            init.lemma_flatten_push(group);
            assert(init.flatten() + group == ws);
            assert(group == groups[groups.len() - 1]);
            assert forall|i: int| 0 <= i < init.len() implies goes_together(
                #[trigger] init[i],
                max,
            ) by {
                assert(init[i] == groups[i]);
            }
            if group.len() == 0 {
                assert(init.flatten() == ws);
                lemma_lines_are_fewest(ws, max, init);
            } else {
                let front = ws.drop_last();
                let w = ws.last();
                assert(group.last() == w);
                assert forall|i: int| 0 <= i < front.len() implies is_word(#[trigger] front[i]) by {
                    assert(front[i] == ws[i]);
                }
                let before = lines(front, max);
                if group.len() == 1 {
                    assert(init.flatten() == front);
                    lemma_lines_are_fewest(front, max, init);
                } else {
                    let rest = group.drop_last();
                    let fewer = init.push(rest);
                    init.lemma_flatten_push(rest);
                    assert(init.flatten() + rest == front);
                    lemma_utf8_len_concat(joined(rest).push(' '), w);
                    lemma_utf8_len_push(joined(rest));
                    assert(fits(rest, w, max));
                    assert forall|i: int| 0 <= i < fewer.len() implies goes_together(
                        #[trigger] fewer[i],
                        max,
                    ) by {
                        if i < init.len() {
                            assert(fewer[i] == init[i]);
                        }
                    }
                    lemma_lines_are_fewest(front, max, fewer);
                    if before.len() == groups.len() {
                        let last = before.last();
                        lemma_lines(front, max);
                        assert(before.drop_last().push(last) == before);
                        before.drop_last().lemma_flatten_push(last);
                        assert(last == before[before.len() - 1]);
                        let from = rest.len() - last.len();
                        assert(rest.skip(from) == last) by {
                            assert forall|i: int| 0 <= i < last.len() implies #[trigger] last[i]
                                == rest[from + i] by {
                                assert(front[front.len() - last.len() + i] == last[i]);
                                assert(front[front.len() - last.len() + i] == rest[from + i]);
                            }
                        }
                        lemma_end_of_line(rest, from);
                        assert(fits(last, w, max));
                    }
                }
            }
        }
    } else {
        assert(lines(ws, max).len() == 0);
    }
}

/// Splitting makes no more chunks than it must: however the words of the text are
/// cut, in order, into groups that are single words or take at most `max` bytes,
/// there are at least as many groups as chunks. White space alone that is short
/// enough to be sent is left out: it is one chunk of no words.
pub proof fn chunks_are_fewest(text: Seq<char>, max: nat, groups: Seq<Seq<Seq<char>>>)
    requires
        groups.flatten() == words(text),
        all_go_together(groups, max),
        text.len() > max || words(text).len() > 0,
    ensures
        chunks(text, max).len() <= groups.len(),
{
    lemma_words_are_words(text);
    if text.len() > max {
        lemma_lines_are_fewest(words(text), max, groups);
    } else if groups.len() == 0 {
        assert(groups.flatten() == Seq::<Seq<char>>::empty());
    }
}

/// A larger limit never gives more chunks. White space alone that only the larger
/// limit allows to be sent is left out: it is one chunk then, and none before.
pub proof fn larger_limit_gives_no_more_chunks(text: Seq<char>, small: nat, large: nat)
    requires
        small <= large,
        words(text).len() > 0 || text.len() <= small || text.len() > large,
    ensures
        chunks(text, large).len() <= chunks(text, small).len(),
{
    if text.len() > small {
        let groups = lines(words(text), small);
        lemma_words_are_words(text);
        lemma_lines(words(text), small);
        assert forall|i: int| 0 <= i < groups.len() implies goes_together(
            #[trigger] groups[i],
            large,
        ) by {}
        chunks_are_fewest(text, large, groups);
    }
}

/// A text of at most `max` characters goes out as it is, with all its white space.
pub proof fn short_text_is_kept(text: Seq<char>, max: nat)
    requires
        text.len() <= max,
    ensures
        chunks(text, max).len() == 1,
        chunks(text, max)[0] == text,
{
}

/// White space in a chunk of a text that had to be split is a single space between
/// two words.
pub proof fn chunks_are_single_spaced(text: Seq<char>, max: nat, i: int, k: int)
    requires
        text.len() > max,
        0 <= i < chunks(text, max).len(),
        0 <= k < chunks(text, max)[i].len(),
        is_white_space(chunks(text, max)[i][k]),
    ensures
        chunks(text, max)[i][k] == ' ',
        0 < k < chunks(text, max)[i].len() - 1,
        !is_white_space(chunks(text, max)[i][k - 1]),
        !is_white_space(chunks(text, max)[i][k + 1]),
{
    lemma_words_are_words(text);
    lemma_lines(words(text), max);
    lemma_single_spaced(lines(words(text), max)[i], k);
}

proof fn lemma_single_spaced(line: Seq<Seq<char>>, k: int)
    requires
        line.len() > 0,
        all_words(line),
        0 <= k < joined(line).len(),
    ensures
        joined(line).len() > 0,
        !is_white_space(joined(line)[0]),
        !is_white_space(joined(line).last()),
        is_white_space(joined(line)[k]) ==> {
            &&& joined(line)[k] == ' '
            &&& 0 < k < joined(line).len() - 1
            &&& !is_white_space(joined(line)[k - 1])
            &&& !is_white_space(joined(line)[k + 1])
        },
    decreases line.len(),
{
    assert(is_word(line[0]));
    assert(is_word(line[line.len() - 1]));
    if line.len() > 1 {
        let front = line.drop_last();
        let word = line.last();
        assert forall|i: int| 0 <= i < front.len() implies is_word(#[trigger] front[i]) by {
            assert(front[i] == line[i]);
        }
        lemma_joined_not_empty(front);
        let start = joined(front);
        let all = joined(line);
        assert(all == start.push(' ') + word);
        if k < start.len() {
            lemma_single_spaced(front, k);
            assert(all[k] == start[k]);
            if k > 0 {
                assert(all[k - 1] == start[k - 1]);
            }
            if k + 1 < start.len() {
                assert(all[k + 1] == start[k + 1]);
            }
        } else {
            lemma_single_spaced(front, 0);
            if k == start.len() {
                assert(all[k - 1] == start.last());
                assert(all[k + 1] == word[0]);
            } else {
                assert(all[k] == word[k - start.len() - 1]);
            }
        }
        assert(all[0] == start[0]);
        assert(all.last() == word.last());
        assert(word.last() == word[word.len() - 1]);
    }
}

/// The words of a text are its runs of characters that are not white space: nothing
/// has none, such a run is the only word of itself, and white space parts words.
pub proof fn words_are_runs(a: Seq<char>, space: char, b: Seq<char>)
    requires
        is_white_space(space),
    ensures
        words(Seq::<char>::empty()) == Seq::<Seq<char>>::empty(),
        a.len() > 0 && (forall|i: int| 0 <= i < a.len() ==> !is_white_space(#[trigger] a[i]))
            ==> words(a) == seq![a],
        words(a.push(space) + b) == words(a) + words(b),
{
    let none = Seq::<char>::empty();
    lemma_leading_space(none);
    assert(none.skip(leading_space(none) as int).len() == 0);
    if is_word(a) {
        lemma_words_of_word(a);
    }
    lemma_words_around_space(a, space, b);
}

/// A text takes as many bytes as its parts, and a character one to four.
pub proof fn bytes_add_up(a: Seq<char>, b: Seq<char>, c: char)
    ensures
        utf8_len(a + b) == utf8_len(a) + utf8_len(b),
        utf8_len(seq![c]) == if (c as u32) < 0x80 {
            1nat
        } else if (c as u32) < 0x800 {
            2
        } else if (c as u32) < 0x1_0000 {
            3
        } else {
            4
        },
{
    lemma_utf8_len_concat(a, b);
    let s = seq![c];
    assert(s.drop_first() == Seq::<char>::empty());
    assert(utf8_len(s.drop_first()) == 0);
}

} // verus!
