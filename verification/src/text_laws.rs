//! What taking texts apart and putting them together gives.

use crate::order;
use crate::text;
use crate::util;
use vstd::prelude::*;

verus! {

/// What is dropped at the front of a text is of the class, and so is what is dropped at its
/// back.
#[verifier::spinoff_prover]
pub proof fn law_only_the_class_is_dropped(s: Seq<char>, p: spec_fn(char) -> bool)
    ensures
        text::drop_front(s, p).is_suffix_of(s),
        text::drop_back(s, p).is_prefix_of(s),
        forall|k: int|
            0 <= k < s.len() - text::drop_front(s, p).len() ==> #[trigger] p(s[k]),
        forall|k: int| text::drop_back(s, p).len() <= k < s.len() ==> #[trigger] p(s[k]),
        text::drop_front(s, p).len() > 0 ==> !p(text::drop_front(s, p)[0]),
        text::drop_back(s, p).len() > 0 ==> !p(text::drop_back(s, p).last()),
    decreases s.len(),
{
    text::lemma_drop_front_shape(s, p);
    text::lemma_drop_back_shape(s, p);
    let f = text::drop_front(s, p);
    let b = text::drop_back(s, p);
    if s.len() > 0 {
        let t = s.skip(1);
        let h = s.drop_last();
        law_only_the_class_is_dropped(t, p);
        law_only_the_class_is_dropped(h, p);
        if p(s[0]) {
            assert forall|k: int| 0 <= k < s.len() - f.len() implies #[trigger] p(s[k]) by {
                if k > 0 {
                    assert(p(t[k - 1]));
                }
            }
        }
        if p(s.last()) {
            assert forall|k: int| b.len() <= k < s.len() implies #[trigger] p(s[k]) by {
                if k < h.len() {
                    assert(p(h[k]));
                }
            }
        }
    }
}

/// Trimming takes away white space at both ends and nothing else: what is left is a part of
/// the text that neither begins nor ends with white space, and all around it is white space.
/// It stands from the first of the results up to the second.
#[verifier::spinoff_prover]
pub proof fn law_trimming_takes_white_space_only(s: Seq<char>) -> (ends: (int, int))
    ensures
        0 <= ends.0 <= ends.1 <= s.len(),
        text::trimmed(s) == s.subrange(ends.0, ends.1),
        forall|k: int| 0 <= k < ends.0 ==> text::is_white(#[trigger] s[k]),
        forall|k: int| ends.1 <= k < s.len() ==> text::is_white(#[trigger] s[k]),
        ends.0 < ends.1 ==> !text::is_white(s[ends.0]) && !text::is_white(s[ends.1 - 1]),
{
    let p = text::white();
    let t = text::drop_front(s, p);
    let u = text::drop_back(t, p);
    law_only_the_class_is_dropped(s, p);
    law_only_the_class_is_dropped(t, p);
    text::lemma_drop_front_shape(s, p);
    text::lemma_drop_back_shape(t, p);
    let i = s.len() - t.len();
    let j = i + u.len();
    assert(s.subrange(i, j) =~= u);
    assert forall|k: int| 0 <= k < i implies text::is_white(#[trigger] s[k]) by {
        assert(p(s[k]));
    }
    assert forall|k: int| j <= k < s.len() implies text::is_white(#[trigger] s[k]) by {
        assert(p(t[k - i]));
    }
    if i < j {
        assert(u[0] == t[0] && t[0] == s[i]);
        assert(u.last() == s[j - 1]);
    }
    (i, j)
}

/// The pieces of a text are what stands between the separators: put together with the
/// separator they are the text again, and none of them holds it.
pub proof fn law_pieces_make_the_text(s: Seq<char>, c: char)
    ensures
        text::pieces(s, c).len() > 0,
        together(text::pieces(s, c), c) == s,
        forall|i: int|
            0 <= i < text::pieces(s, c).len() ==> !(#[trigger] text::pieces(s, c)[i]).contains(c),
    decreases s.len(),
{
    let all = text::pieces(s, c);
    text::lemma_first_at_shape(s, c);
    let n = text::first_at(s, c);
    if s.contains(c) && 0 <= n < s.len() {
        let head = s.take(n);
        let rest = s.skip(n + 1);
        law_pieces_make_the_text(rest, c);
        assert(all.skip(1) =~= text::pieces(rest, c));
        assert(all[0] == head);
        assert(s =~= head + seq![c] + rest);
        assert forall|i: int| 0 <= i < all.len() implies !(#[trigger] all[i]).contains(c) by {
            if i == 0 {
                if head.contains(c) {
                    let k = choose|k: int| 0 <= k < head.len() && head[k] == c;
                    assert(s[k] == c);
                }
            } else {
                assert(all[i] == text::pieces(rest, c)[i - 1]);
            }
        }
    } else {
        assert(all =~= seq![s]);
        if s.contains(c) {
            assert(false);
        }
    }
}

/// Texts with a character between each two of them.
pub open spec fn together(v: Seq<Seq<char>>, c: char) -> Seq<char>
    decreases v.len(),
{
    if v.len() == 0 {
        Seq::empty()
    } else if v.len() == 1 {
        v[0]
    } else {
        v[0] + seq![c] + together(v.skip(1), c)
    }
}

/// Splitting at the first separator parts a text into what stands before and what stands
/// behind it.
pub proof fn law_split_at_the_first(a: Seq<char>, c: char, b: Seq<char>)
    requires
        !a.contains(c),
    ensures
        text::split_once(a + seq![c] + b, c) == Some((a, b)),
        text::split_once(a, c) is None,
        text::until(a + seq![c] + b, c) == a,
        text::until(a, c) == a,
{
    let s = a + seq![c] + b;
    assert forall|k: int| 0 <= k < a.len() implies #[trigger] s[k] != c by {
        assert(s[k] == a[k]);
        assert(a.contains(a[k]));
    }
    assert(s[a.len() as int] == c);
    text::lemma_first_at(s, c, a.len() as int);
    assert(s.contains(c));
    assert(s.take(a.len() as int) =~= a);
    assert(s.skip(a.len() as int + 1) =~= b);
    text::lemma_first_at_shape(a, c);
    assert(a.take(a.len() as int) =~= a);
    if text::first_at(a, c) < a.len() {
        assert(a.contains(a[text::first_at(a, c)]));
    }
}

/// Splitting at the last separator parts a text into what stands before and what stands
/// behind it.
pub proof fn law_split_at_the_last(a: Seq<char>, c: char, b: Seq<char>)
    requires
        !b.contains(c),
    ensures
        text::rsplit_once(a + seq![c] + b, c) == Some((a, b)),
        text::rsplit_once(b, c) is None,
{
    let s = a + seq![c] + b;
    assert forall|k: int| a.len() < k < s.len() implies #[trigger] s[k] != c by {
        assert(s[k] == b[k - a.len() - 1]);
        assert(b.contains(b[k - a.len() - 1]));
    }
    assert(s[a.len() as int] == c);
    assert(s.contains(c));
    text::lemma_last_at(s, c, a.len() as int);
    assert(s.take(a.len() as int) =~= a);
    assert(s.skip(a.len() as int + 1) =~= b);
}

/// A text that is padded begins with the text, has at least the width, and goes on with
/// blanks only.
pub proof fn law_padding_adds_blanks_only(s: Seq<char>, width: int)
    ensures
        text::padded(s, width).len() == if s.len() < width {
            width
        } else {
            s.len() as int
        },
        s.is_prefix_of(text::padded(s, width)),
        forall|i: int|
            s.len() <= i < text::padded(s, width).len() ==> (#[trigger] text::padded(s, width)[i])
                == ' ',
{
    assert(text::padded(s, width).take(s.len() as int) =~= s);
}

/// Letters change their case one by one, and nothing else changes.
pub proof fn law_letters_change_case(s: Seq<char>, i: int)
    requires
        0 <= i < s.len(),
    ensures
        text::lowered(s).len() == s.len(),
        text::uppered(s).len() == s.len(),
        'A' <= s[i] <= 'Z' ==> text::lowered(s)[i] as u32 == s[i] as u32 + 32,
        'a' <= s[i] <= 'z' ==> text::uppered(s)[i] as u32 == s[i] as u32 - 32,
        !('A' <= s[i] <= 'Z') ==> text::lowered(s)[i] == s[i],
        !('a' <= s[i] <= 'z') ==> text::uppered(s)[i] == s[i],
{
}

/// The first character in which two texts differ decides which comes first; a text comes
/// before its own continuations, and not before itself.
pub proof fn law_first_difference_orders(a: Seq<char>, b: Seq<char>, k: int)
    requires
        0 <= k <= a.len(),
        k <= b.len(),
        forall|j: int| 0 <= j < k ==> #[trigger] a[j] == b[j],
        k < a.len() && k < b.len() ==> a[k] != b[k],
    ensures
        order::precedes(a, b) == (if k < a.len() && k < b.len() {
            a[k] < b[k]
        } else {
            k < b.len()
        }),
    decreases k,
{
    if k > 0 {
        assert(a[0] == b[0]);
        assert forall|j: int| 0 <= j < k - 1 implies #[trigger] a.skip(1)[j] == b.skip(1)[j] by {
            assert(a[j + 1] == b[j + 1]);
        }
        law_first_difference_orders(a.skip(1), b.skip(1), k - 1);
    }
}

/// A text that neither begins nor ends with white space is not trimmed.
pub proof fn lemma_no_white(s: Seq<char>)
    requires
        s.len() > 0,
        !text::is_white(s[0]),
        !text::is_white(s.last()),
    ensures
        text::trimmed(s) == s,
{
    assert(text::drop_front(s, text::white()) == s);
    assert(text::drop_back(s, text::white()) == s);
}

spec fn all_alnum(s: Seq<char>) -> bool {
    forall|i: int| 0 <= i < s.len() ==> text::is_alnum(#[trigger] s[i])
}

proof fn lemma_dashed_letters(a: Seq<char>, b: Seq<char>)
    requires
        all_alnum(b),
    ensures
        util::dashed(a + b) == util::dashed(a) + text::lowered(b),
    decreases b.len(),
{
    let s = a + b;
    if b.len() == 0 {
        assert(s =~= a);
        assert(util::dashed(a) + text::lowered(b) =~= util::dashed(a));
    } else {
        let p = b.drop_last();
        assert forall|i: int| 0 <= i < p.len() implies text::is_alnum(#[trigger] p[i]) by {
            assert(p[i] == b[i]);
        }
        lemma_dashed_letters(a, p);
        assert(s.drop_last() =~= a + p);
        assert(text::is_alnum(b[b.len() - 1]));
        assert(util::dashed(a) + text::lowered(b) =~= (util::dashed(a) + text::lowered(p)).push(
            text::lower(b.last()),
        ));
    }
}

proof fn lemma_not_white(c: char)
    requires
        text::is_alnum(c),
    ensures
        !text::is_white(c),
        text::lower(c) != '-',
{
}

proof fn lemma_no_local(s: Seq<char>)
    requires
        s.len() > 0,
        !s.contains('.'),
    ensures
        text::drop_suffixes(s, ".local"@) == s,
{
    reveal_strlit(".local");
    let x = ".local"@;
    if x.is_suffix_of(s) {
        assert(s.subrange(s.len() - x.len(), s.len() as int)[0] == x[0]);
        assert(s[s.len() - x.len()] == '.');
        assert(s.contains('.'));
    }
}

/// A name of letters and digits has as its slug the name in lower case.
pub proof fn law_slug_of_letters(name: Seq<char>)
    requires
        name.len() > 0,
        forall|i: int| 0 <= i < name.len() ==> text::is_alnum(#[trigger] name[i]),
    ensures
        util::slug_outcome(name) == Ok::<Seq<char>, Seq<char>>(text::lowered(name)),
{
    assert(text::is_alnum(name[0]) && text::is_alnum(name[name.len() - 1]));
    lemma_no_white(name);
    if name.contains('.') {
        let i = choose|i: int| 0 <= i < name.len() && name[i] == '.';
        assert(text::is_alnum(name[i]));
    }
    lemma_no_local(name);
    let none = Seq::<char>::empty();
    lemma_dashed_letters(none, name);
    assert(none + name =~= name);
    assert(util::dashed(none) + text::lowered(name) =~= text::lowered(name));
    let l = text::lowered(name);
    lemma_not_white(name[name.len() - 1]);
    assert(l.last() == text::lower(name[name.len() - 1]));
    assert(text::drop_back(l, text::only('-')) == l);
}

/// What separates two words of a name is one dash in its slug.
pub proof fn law_slug_of_two_words(a: Seq<char>, c: char, b: Seq<char>)
    requires
        a.len() > 0,
        b.len() > 0,
        forall|i: int| 0 <= i < a.len() ==> text::is_alnum(#[trigger] a[i]),
        forall|i: int| 0 <= i < b.len() ==> text::is_alnum(#[trigger] b[i]),
        c == '-' || c == '_' || c == ' ' || c == '@' || c == ':',
    ensures
        util::slug_outcome(a + seq![c] + b) == Ok::<Seq<char>, Seq<char>>(
            text::lowered(a) + "-"@ + text::lowered(b),
        ),
{
    reveal_strlit("-");
    let name = a + seq![c] + b;
    assert(name[0] == a[0] && name.last() == b[b.len() - 1]);
    assert(text::is_alnum(a[0]) && text::is_alnum(b[b.len() - 1]));
    lemma_no_white(name);
    if name.contains('.') {
        let i = choose|i: int| 0 <= i < name.len() && name[i] == '.';
        if i < a.len() {
            assert(text::is_alnum(a[i]));
        } else if i > a.len() {
            assert(text::is_alnum(b[i - a.len() - 1]));
        }
    }
    lemma_no_local(name);
    let none = Seq::<char>::empty();
    lemma_dashed_letters(none, a);
    assert(none + a =~= a);
    let l = text::lowered(a);
    assert(util::dashed(none) + l =~= l);
    let head = a + seq![c];
    assert(head.drop_last() =~= a);
    assert(head.last() == c);
    lemma_not_white(a[a.len() - 1]);
    assert(text::is_alnum(a[a.len() - 1]));
    assert(l.last() == text::lower(a[a.len() - 1]));
    assert(!text::is_alnum(c));
    assert(util::dashed(head) == l.push('-'));
    lemma_dashed_letters(head, b);
    let all = l.push('-') + text::lowered(b);
    assert(all =~= l + "-"@ + text::lowered(b));
    lemma_not_white(b[b.len() - 1]);
    assert(all.last() == text::lower(b[b.len() - 1]));
    assert(text::drop_back(all, text::only('-')) == all);
}

/// The name that a machine has in its local network has the slug of the machine's name.
pub proof fn law_slug_of_local_names(name: Seq<char>)
    requires
        name.len() > 0,
        forall|i: int| 0 <= i < name.len() ==> text::is_alnum(#[trigger] name[i]),
    ensures
        util::slug_outcome(name + ".local"@) == util::slug_outcome(name),
{
    reveal_strlit(".local");
    let x = ".local"@;
    let s = name + x;
    assert(text::is_alnum(name[0]) && text::is_alnum(name[name.len() - 1]));
    assert(s[0] == name[0] && s.last() == 'l');
    lemma_no_white(s);
    lemma_no_white(name);
    assert(s.subrange(s.len() - x.len(), s.len() as int) =~= x);
    assert(x.is_suffix_of(s));
    assert(s.take(s.len() - x.len()) =~= name);
}

/// A secret's name of letters and digits is the name in upper case, and an underscore stays
/// one.
pub proof fn law_secret_names_are_in_upper_case(a: Seq<char>, b: Seq<char>)
    requires
        a.len() > 0,
        b.len() > 0,
        forall|i: int| 0 <= i < a.len() ==> text::is_alnum(#[trigger] a[i]),
        forall|i: int| 0 <= i < b.len() ==> text::is_alnum(#[trigger] b[i]),
    ensures
        util::secret_name_outcome(a + "_"@ + b) == Ok::<Seq<char>, Seq<char>>(
            text::uppered(a) + "_"@ + text::uppered(b),
        ),
{
    reveal_strlit("_");
    reveal_strlit("-");
    assert("_"@ =~= seq!['_']);
    law_slug_of_two_words(a, '_', b);
    let s = text::lowered(a) + "-"@ + text::lowered(b);
    util::lemma_replaced_one(s, '-', "_"@);
    let t = text::uppered(text::replaced(s, '-', "_"@));
    let want = text::uppered(a) + "_"@ + text::uppered(b);
    assert forall|i: int| 0 <= i < t.len() implies #[trigger] t[i] == want[i] by {
        if i < a.len() {
            assert(text::is_alnum(a[i]));
            lemma_not_white(a[i]);
            assert(s[i] == text::lower(a[i]));
        } else if i > a.len() {
            let j = i - a.len() - 1;
            assert(text::is_alnum(b[j]));
            lemma_not_white(b[j]);
            assert(s[i] == text::lower(b[j]));
        } else {
            assert(s[i] == '-');
        }
    }
    assert(t =~= want);
}

/// The first word of a text is what stands before the first white space, and what is behind the
/// word begins with that.
pub proof fn law_first_word(w: Seq<char>, rest: Seq<char>)
    requires
        w.len() > 0,
        forall|i: int| 0 <= i < w.len() ==> !text::is_white(#[trigger] w[i]),
        rest.len() == 0 || text::is_white(rest[0]),
    ensures
        text::first_word(w + rest) == w,
        text::after_word(w + rest) == rest,
        text::first_word(" "@ + w + rest) == w,
        text::after_word(" "@ + w + rest) == rest,
{
    reveal_strlit(" ");
    let s = w + rest;
    let t = " "@ + w + rest;
    assert(s[0] == w[0]);
    assert(!text::is_white(w[0]));
    assert(text::drop_front(s, text::white()) == s);
    assert(t[0] == ' ');
    assert(t.skip(1) =~= s);
    assert(text::drop_front(t, text::white()) == s);
    lemma_word_ends(w, rest);
    assert(s.take(w.len() as int) =~= w);
    assert(s.skip(w.len() as int) =~= rest);
}

proof fn lemma_word_ends(w: Seq<char>, rest: Seq<char>)
    requires
        forall|i: int| 0 <= i < w.len() ==> !text::is_white(#[trigger] w[i]),
        rest.len() == 0 || text::is_white(rest[0]),
    ensures
        text::word_end(w + rest) == w.len(),
    decreases w.len(),
{
    let s = w + rest;
    if w.len() > 0 {
        let v = w.skip(1);
        assert(s[0] == w[0]);
        assert(!text::is_white(w[0]));
        assert(s.skip(1) =~= v + rest);
        assert forall|i: int| 0 <= i < v.len() implies !text::is_white(#[trigger] v[i]) by {
            assert(v[i] == w[i + 1]);
        }
        lemma_word_ends(v, rest);
    } else {
        assert(s =~= rest);
    }
}

/// The host name behind a name is the one that the first line of SSH's configuration with that
/// keyword gives.
pub proof fn law_host_names_are_found(lines: Seq<Seq<char>>, host: Seq<char>, name: Seq<char>, i: int)
    requires
        0 <= i < lines.len(),
        lines[i] == "hostname "@ + name,
        name.len() > 0,
        forall|k: int| 0 <= k < name.len() ==> !text::is_white(#[trigger] name[k]),
        forall|j: int| 0 <= j < i ==> text::first_word(#[trigger] lines[j]) != "hostname"@,
    ensures
        crate::ssh::hostname_in(lines, host) == name,
        crate::ssh::hostname_in(Seq::empty(), host) == host,
    decreases i,
{
    if i > 0 {
        let t = lines.skip(1);
        assert(text::first_word(lines[0]) != "hostname"@);
        assert forall|j: int| 0 <= j < i - 1 implies text::first_word(#[trigger] t[j])
            != "hostname"@ by {
            assert(t[j] == lines[j + 1]);
        }
        assert(t[i - 1] == lines[i]);
        law_host_names_are_found(t, host, name, i - 1);
    } else {
        reveal_strlit("hostname ");
        reveal_strlit("hostname");
        reveal_strlit(" ");
        let none = Seq::<char>::empty();
        let rest = " "@ + name;
        assert(lines[0] =~= "hostname"@ + rest);
        law_first_word("hostname"@, rest);
        law_first_word(name, none);
        assert(" "@ + name + none =~= rest);
        assert(text::first_word(rest) == name);
    }
}

/// Texts that are joined stand in the whole with the separator between them.
pub proof fn law_joined_texts_stand_in_the_whole(v: Seq<Seq<char>>, sep: Seq<char>, i: int)
    requires
        0 <= i < v.len(),
    ensures
        text::holds(text::joined(v, sep), v[i]),
        i + 1 < v.len() ==> text::holds(text::joined(v, sep), v[i] + sep + v[i + 1]),
    decreases v.len(),
{
    let s = text::joined(v, sep);
    if v.len() == 1 {
        let a: int = 0;
        assert(s.subrange(a, a + v[0].len()) =~= v[0]);
    } else {
        let p = v.drop_last();
        let t = text::joined(p, sep);
        let last = v.last();
        let at: int = t.len() as int + sep.len();
        if i < p.len() {
            law_joined_texts_stand_in_the_whole(p, sep, i);
            assert(p[i] == v[i]);
            let a = choose|a: int|
                0 <= a <= t.len() - v[i].len() && #[trigger] t.subrange(a, a + v[i].len()) == v[i];
            assert(s.subrange(a, a + v[i].len()) =~= t.subrange(a, a + v[i].len()));
            if i + 1 < p.len() {
                let x = v[i] + sep + v[i + 1];
                assert(p[i + 1] == v[i + 1]);
                let b = choose|b: int|
                    0 <= b <= t.len() - x.len() && #[trigger] t.subrange(b, b + x.len()) == x;
                assert(s.subrange(b, b + x.len()) =~= t.subrange(b, b + x.len()));
            } else {
                let x = v[i] + sep + v[i + 1];
                lemma_joined_ends(p, sep);
                let b: int = t.len() - v[i].len();
                assert(t.subrange(b, t.len() as int) == v[i]);
                assert forall|k: int| 0 <= k < v[i].len() implies #[trigger] s[b + k] == v[i][k] by {
                    assert(t.subrange(b, t.len() as int)[k] == t[b + k]);
                }
                assert(s.subrange(b, b + x.len()) =~= x);
            }
        } else {
            assert(s.subrange(at, at + last.len()) =~= last);
        }
    }
}

proof fn lemma_joined_ends(v: Seq<Seq<char>>, sep: Seq<char>)
    requires
        v.len() > 0,
    ensures
        text::joined(v, sep).len() >= v.last().len(),
        text::joined(v, sep).subrange(
            text::joined(v, sep).len() - v.last().len(),
            text::joined(v, sep).len() as int,
        ) == v.last(),
{
    let s = text::joined(v, sep);
    assert(s.subrange(s.len() - v.last().len(), s.len() as int) =~= v.last());
}

} // verus!
