//! How a shell takes a line apart into words.

use crate::process;
use crate::text;
use vstd::prelude::*;

verus! {

/// A character that separates words.
pub open spec fn is_blank(c: char) -> bool {
    c == ' ' || c == '\t' || c == '\n'
}

/// The words of `s`, where `word` is the word that is being read, if one is, and `inside`
/// says whether it is read between single quotes. Nothing is expanded, and a quote that is
/// not closed runs to the end.
pub open spec fn words_from(s: Seq<char>, word: Option<Seq<char>>, inside: bool) -> Seq<Seq<char>>
    decreases s.len(),
{
    let so_far = match word {
        Some(w) => w,
        None => Seq::empty(),
    };
    if s.len() == 0 {
        match word {
            Some(w) => seq![w],
            None => Seq::empty(),
        }
    } else if inside {
        if s[0] == '\'' {
            words_from(s.skip(1), Some(so_far), false)
        } else {
            words_from(s.skip(1), Some(so_far.push(s[0])), true)
        }
    } else if is_blank(s[0]) {
        match word {
            Some(w) => seq![w] + words_from(s.skip(1), None, false),
            None => words_from(s.skip(1), None, false),
        }
    } else if s[0] == '\'' {
        words_from(s.skip(1), Some(so_far), true)
    } else if s[0] == '\\' && s.len() >= 2 {
        words_from(s.skip(2), Some(so_far.push(s[1])), false)
    } else {
        words_from(s.skip(1), Some(so_far.push(s[0])), false)
    }
}

/// The words of a line.
pub open spec fn words(s: Seq<char>) -> Seq<Seq<char>> {
    words_from(s, None, false)
}

/// A character that stands for itself in a word.
pub open spec fn is_plain_char(c: char) -> bool {
    !is_blank(c) && c != '\'' && c != '"' && c != '\\'
}

/// Text that a shell reads as one word, as it is.
pub open spec fn is_plain(s: Seq<char>) -> bool {
    s.len() > 0 && forall|i: int| 0 <= i < s.len() ==> is_plain_char(#[trigger] s[i])
}

/// Where a word can end: at the end of a line or before a blank.
pub open spec fn ends_word(s: Seq<char>) -> bool {
    s.len() == 0 || is_blank(s[0])
}

proof fn lemma_ends(rest: Seq<char>, w: Seq<char>)
    requires
        ends_word(rest),
    ensures
        words_from(rest, Some(w), false) == seq![w] + words(rest),
{
    if rest.len() == 0 {
        assert(seq![w] + words(rest) =~= seq![w]);
    }
}

proof fn lemma_plain_run(p: Seq<char>, rest: Seq<char>, w: Seq<char>)
    requires
        forall|i: int| 0 <= i < p.len() ==> is_plain_char(#[trigger] p[i]),
    ensures
        words_from(p + rest, Some(w), false) == words_from(rest, Some(w + p), false),
    decreases p.len(),
{
    if p.len() == 0 {
        assert(p + rest =~= rest);
        assert(w + p =~= w);
    } else {
        let s = p + rest;
        assert(s[0] == p[0]);
        assert(is_plain_char(p[0]));
        assert(s.skip(1) =~= p.skip(1) + rest);
        assert forall|i: int| 0 <= i < p.skip(1).len() implies is_plain_char(
            #[trigger] p.skip(1)[i],
        ) by {
            assert(is_plain_char(p[i + 1]));
        }
        lemma_plain_run(p.skip(1), rest, w.push(p[0]));
        assert(w.push(p[0]) + p.skip(1) =~= w + p);
    }
}

proof fn lemma_replaced_run(v: Seq<char>, rest: Seq<char>, w: Seq<char>)
    ensures
        words_from(text::replaced(v, '\'', "'\\''"@) + rest, Some(w), true) == words_from(
            rest,
            Some(w + v),
            true,
        ),
    decreases v.len(),
{
    let esc = "'\\''"@;
    reveal_strlit("'\\''");
    let all = text::replaced(v, '\'', esc);
    if v.len() == 0 {
        assert(all + rest =~= rest);
        assert(w + v =~= w);
    } else {
        let p = v.drop_last();
        let c = v.last();
        let piece = if c == '\'' {
            esc
        } else {
            seq![c]
        };
        let tail = piece + rest;
        assert(all + rest =~= text::replaced(p, '\'', esc) + tail);
        lemma_replaced_run(p, tail, w);
        let y = w + p;
        assert(y.push(c) =~= w + v);
        if c == '\'' {
            let t1 = tail.skip(1);
            let t2 = t1.skip(2);
            assert(tail[0] == '\'');
            assert(t1[0] == '\\');
            assert(t1[1] == '\'');
            assert(t2[0] == '\'');
            assert(t2.skip(1) =~= rest);
            assert(words_from(t1, Some(y), false) == words_from(t2, Some(y.push('\'')), false));
            assert(words_from(t2, Some(y.push('\'')), false) == words_from(
                rest,
                Some(y.push('\'')),
                true,
            ));
        } else {
            assert(tail[0] == c);
            assert(tail.skip(1) =~= rest);
        }
    }
}

proof fn lemma_quoted_run(v: Seq<char>, rest: Seq<char>, w: Seq<char>)
    ensures
        words_from(process::quoted(v) + rest, Some(w), false) == words_from(
            rest,
            Some(w + v),
            false,
        ),
{
    reveal_strlit("'");
    let body = text::replaced(v, '\'', "'\\''"@);
    let s = process::quoted(v) + rest;
    let end = "'"@ + rest;
    assert(s[0] == '\'');
    assert(s.skip(1) =~= body + end);
    lemma_replaced_run(v, end, w);
    assert(end[0] == '\'');
    assert(end.skip(1) =~= rest);
}

/// Plain text that begins a line is its first word.
pub proof fn lemma_plain_first(p: Seq<char>, rest: Seq<char>)
    requires
        is_plain(p),
        ends_word(rest),
    ensures
        words(p + rest) == seq![p] + words(rest),
{
    let s = p + rest;
    let none = Seq::<char>::empty();
    assert(s[0] == p[0]);
    assert(is_plain_char(p[0]));
    assert(s.skip(1) =~= p.skip(1) + rest);
    assert forall|i: int| 0 <= i < p.skip(1).len() implies is_plain_char(
        #[trigger] p.skip(1)[i],
    ) by {
        assert(is_plain_char(p[i + 1]));
    }
    lemma_plain_run(p.skip(1), rest, none.push(p[0]));
    assert(none.push(p[0]) + p.skip(1) =~= p);
    lemma_ends(rest, p);
}

/// Plain text behind a blank is the next word.
pub proof fn lemma_plain_next(p: Seq<char>, rest: Seq<char>)
    requires
        is_plain(p),
        ends_word(rest),
    ensures
        words(" "@ + p + rest) == seq![p] + words(rest),
{
    reveal_strlit(" ");
    let s = " "@ + p + rest;
    assert(s[0] == ' ');
    assert(s.skip(1) =~= p + rest);
    lemma_plain_first(p, rest);
}

/// Quoted text behind a blank is the next word.
pub proof fn lemma_quoted_next(v: Seq<char>, rest: Seq<char>)
    requires
        ends_word(rest),
    ensures
        words(" "@ + process::quoted(v) + rest) == seq![v] + words(rest),
{
    reveal_strlit(" ");
    reveal_strlit("'");
    let none = Seq::<char>::empty();
    let t = process::quoted(v) + rest;
    let s = " "@ + process::quoted(v) + rest;
    assert(s[0] == ' ');
    assert(s.skip(1) =~= t);
    assert(t[0] == '\'');
    lemma_quoted_run(v, rest, none);
    assert(words_from(t, None, false) == words_from(t, Some(none), false));
    assert(none + v =~= v);
    lemma_ends(rest, v);
}

/// Plain text with quoted text directly behind it is one word.
pub proof fn lemma_mixed_next(p: Seq<char>, v: Seq<char>, rest: Seq<char>)
    requires
        is_plain(p),
        ends_word(rest),
    ensures
        words(" "@ + p + process::quoted(v) + rest) == seq![p + v] + words(rest),
{
    reveal_strlit(" ");
    let none = Seq::<char>::empty();
    let tail = process::quoted(v) + rest;
    let t = p + tail;
    let s = " "@ + p + process::quoted(v) + rest;
    assert(s[0] == ' ');
    assert(s.skip(1) =~= t);
    assert(t[0] == p[0]);
    assert(is_plain_char(p[0]));
    assert(t.skip(1) =~= p.skip(1) + tail);
    assert forall|i: int| 0 <= i < p.skip(1).len() implies is_plain_char(
        #[trigger] p.skip(1)[i],
    ) by {
        assert(is_plain_char(p[i + 1]));
    }
    lemma_plain_run(p.skip(1), tail, none.push(p[0]));
    assert(none.push(p[0]) + p.skip(1) =~= p);
    assert(words_from(t, None, false) == words_from(t.skip(1), Some(none.push(p[0])), false));
    assert(words_from(s, None, false) == words_from(t, None, false));
    lemma_quoted_run(v, rest, p);
    lemma_ends(rest, p + v);
}

/// Words with a blank before each, and then `end`.
pub open spec fn spread(ws: Seq<Seq<char>>, end: Seq<char>) -> Seq<char>
    decreases ws.len(),
{
    if ws.len() == 0 {
        end
    } else {
        " "@ + ws[0] + spread(ws.skip(1), end)
    }
}

/// What stands behind words that are spread out can be put there later.
pub proof fn lemma_spread_end(ws: Seq<Seq<char>>, end: Seq<char>, more: Seq<char>)
    ensures
        spread(ws, end + more) == spread(ws, end) + more,
    decreases ws.len(),
{
    if ws.len() > 0 {
        lemma_spread_end(ws.skip(1), end, more);
        assert(spread(ws, end + more) =~= spread(ws, end) + more);
    }
}

/// Plain words that are spread out are read as these words.
pub proof fn lemma_spread_words(ws: Seq<Seq<char>>, end: Seq<char>)
    requires
        forall|i: int| 0 <= i < ws.len() ==> is_plain(#[trigger] ws[i]),
        ends_word(end),
    ensures
        ends_word(spread(ws, end)),
        words(spread(ws, end)) == ws + words(end),
    decreases ws.len(),
{
    reveal_strlit(" ");
    if ws.len() == 0 {
        assert(ws + words(end) =~= words(end));
    } else {
        let t = ws.skip(1);
        assert forall|i: int| 0 <= i < t.len() implies is_plain(#[trigger] t[i]) by {
            assert(t[i] == ws[i + 1]);
        }
        lemma_spread_words(t, end);
        assert(is_plain(ws[0]));
        lemma_plain_next(ws[0], spread(t, end));
        assert(seq![ws[0]] + (t + words(end)) =~= ws + words(end));
    }
}

} // verus!
