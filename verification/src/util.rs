//! Slugs, the short names by which nodes, services and secrets are known; and times
//! as they are shown.

pub use crate::clock::now_ts;

use crate::clock;
use crate::clock::{local_offset, show_time};
use crate::number;
use crate::number::signed_text;
use crate::text;
use crate::text::{
    alnum, chars_of, replace_char, text_of, to_lower, trim, trim_end_char, trim_end_text, uppercase,
};
use vstd::prelude::*;

verus! {

/// The characters that stand for a break between the words of a slug.
pub open spec fn is_break(c: char) -> bool {
    c == '-' || c == '_' || c == '.' || c == ' ' || c == '@' || c == ':'
}

/// `out`, after the character `c` of a name.
pub open spec fn slug_step(out: Seq<char>, c: char) -> Seq<char> {
    if text::is_alnum(c) {
        out.push(text::lower(c))
    } else if is_break(c) && out.len() > 0 && out.last() != '-' {
        out.push('-')
    } else {
        out
    }
}

/// The words of `s` in lower case, with one dash for each run of breaks that
/// follows a word; other characters are left out.
pub open spec fn dashed(s: Seq<char>) -> Seq<char>
    decreases s.len(),
{
    if s.len() == 0 {
        Seq::empty()
    } else {
        slug_step(dashed(s.drop_last()), s.last())
    }
}

/// The slug of a name, which may be empty.
pub open spec fn slug(name: Seq<char>) -> Seq<char> {
    text::drop_back(dashed(text::drop_suffixes(text::trimmed(name), ".local"@)), text::only('-'))
}

/// The slug of a name, or what is said of a name without one.
pub open spec fn slug_outcome(name: Seq<char>) -> Result<Seq<char>, Seq<char>> {
    if slug(name).len() == 0 {
        Err("slug cannot be empty"@)
    } else {
        Ok(slug(name))
    }
}

/// The name under which a secret is kept, or what is said of a name without one.
pub open spec fn secret_name_outcome(name: Seq<char>) -> Result<Seq<char>, Seq<char>> {
    match slug_outcome(name) {
        Ok(s) => Ok(text::uppered(text::replaced(s, '-', "_"@))),
        Err(e) => Err(e),
    }
}

/// Lower case letters, digits and single dashes, with a letter or digit at both
/// ends.
pub open spec fn is_slug(s: Seq<char>) -> bool {
    &&& s.len() > 0
    &&& s[0] != '-'
    &&& s.last() != '-'
    &&& forall|i: int|
        0 <= i < s.len() ==> 'a' <= (#[trigger] s[i]) <= 'z' || '0' <= s[i] <= '9' || s[i] == '-'
    &&& forall|i: int| 0 < i < s.len() && (#[trigger] s[i]) == '-' ==> s[i - 1] != '-'
}

/// The name's words in lower case, joined by dashes.
pub fn normalize_slug(input: &str) -> (r: Result<String, String>)
    ensures
        text::text_outcome(r) == slug_outcome(input@),
{
    let base = trim_end_text(trim(input), ".local");
    let chars = chars_of(base);
    let mut out: Vec<char> = Vec::new();
    let mut i: usize = 0;
    while i < chars.len()
        invariant
            i <= chars.len(),
            out@ == dashed(chars@.take(i as int)),
        decreases chars.len() - i,
    {
        let c: char = chars[i];
        proof {
            let next = chars@.take(i + 1);
            assert(next.drop_last() == chars@.take(i as int));
            assert(next.last() == c);
        }
        if alnum(c) {
            out.push(to_lower(c));
        } else if c == '-' || c == '_' || c == '.' || c == ' ' || c == '@' || c == ':' {
            if out.len() > 0 && out[out.len() - 1] != '-' {
                out.push('-');
            }
        }
        i += 1;
    }
    proof {
        assert(chars@.take(chars@.len() as int) == chars@);
    }
    let text = text_of(&out, 0, out.len());
    proof {
        assert(text@ == out@);
    }
    let slug = trim_end_char(text.as_str(), '-');
    if slug.is_empty() {
        return Err("slug cannot be empty".to_owned());
    }
    Ok(slug.to_owned())
}

/// The name's words in upper case, joined by underscores.
pub fn normalize_secret_name(name: &str) -> (r: Result<String, String>)
    ensures
        text::text_outcome(r) == secret_name_outcome(name@),
{
    match normalize_slug(name) {
        Ok(s) => Ok(uppercase(replace_char(s.as_str(), '-', "_").as_str())),
        Err(e) => Err(e),
    }
}

proof fn lemma_dashed_shape(s: Seq<char>)
    ensures
        dashed(s).len() > 0 ==> dashed(s)[0] != '-',
        forall|i: int|
            0 <= i < dashed(s).len() ==> 'a' <= (#[trigger] dashed(s)[i]) <= 'z' || '0' <= dashed(
                s,
            )[i] <= '9' || dashed(s)[i] == '-',
        forall|i: int|
            0 < i < dashed(s).len() && (#[trigger] dashed(s)[i]) == '-' ==> dashed(s)[i - 1]
                != '-',
    decreases s.len(),
{
    if s.len() > 0 {
        lemma_dashed_shape(s.drop_last());
    }
}

/// Every slug has the shape of a slug.
pub proof fn lemma_slug_shape(name: Seq<char>)
    requires
        slug(name).len() > 0,
    ensures
        is_slug(slug(name)),
{
    let d = dashed(text::drop_suffixes(text::trimmed(name), ".local"@));
    lemma_dashed_shape(d);
    lemma_dashed_shape(text::drop_suffixes(text::trimmed(name), ".local"@));
    text::lemma_drop_back_shape(d, text::only('-'));
    let s = slug(name);
    assert(s == d.take(s.len() as int));
    assert forall|i: int| 0 <= i < s.len() implies 'a' <= (#[trigger] s[i]) <= 'z' || '0' <= s[i]
        <= '9' || s[i] == '-' by {
        assert(s[i] == d[i]);
    }
    assert forall|i: int| 0 < i < s.len() && (#[trigger] s[i]) == '-' implies s[i - 1] != '-' by {
        assert(s[i] == d[i]);
        assert(s[i - 1] == d[i - 1]);
    }
    assert(!text::only('-')(s.last()));
}

proof fn lemma_dashed_of_slug(s: Seq<char>)
    requires
        s.len() > 0 ==> s[0] != '-',
        forall|i: int|
            0 <= i < s.len() ==> 'a' <= (#[trigger] s[i]) <= 'z' || '0' <= s[i] <= '9' || s[i]
                == '-',
        forall|i: int| 0 < i < s.len() && (#[trigger] s[i]) == '-' ==> s[i - 1] != '-',
    ensures
        dashed(s) == s,
    decreases s.len(),
{
    if s.len() > 0 {
        let p = s.drop_last();
        assert forall|i: int| 0 <= i < p.len() implies 'a' <= (#[trigger] p[i]) <= 'z' || '0'
            <= p[i] <= '9' || p[i] == '-' by {
            assert(p[i] == s[i]);
        }
        assert forall|i: int| 0 < i < p.len() && (#[trigger] p[i]) == '-' implies p[i - 1]
            != '-' by {
            assert(p[i] == s[i]);
            assert(p[i - 1] == s[i - 1]);
        }
        lemma_dashed_of_slug(p);
        let c = s.last();
        assert(c == s[s.len() - 1]);
        if c == '-' {
            assert(p.len() > 0);
            assert(p.last() == s[s.len() - 2]);
        }
        assert(s == p.push(c));
    } else {
        assert(dashed(s) == s);
    }
}

/// A slug is its own slug.
pub proof fn lemma_slug_of_slug(s: Seq<char>)
    requires
        is_slug(s),
    ensures
        slug(s) == s,
{
    reveal_strlit(".local");
    assert(!text::is_white(s[0]));
    assert(!text::is_white(s.last())) by {
        assert(s.last() == s[s.len() - 1]);
    }
    assert(text::drop_front(s, text::white()) == s);
    assert(text::drop_back(s, text::white()) == s);
    assert(!".local"@.is_suffix_of(s)) by {
        if ".local"@.is_suffix_of(s) {
            let k = s.len() - 6;
            assert(s.subrange(k, s.len() as int)[0] == ".local"@[0]);
            assert(s[k] == '.');
        }
    }
    lemma_dashed_of_slug(s);
    assert(text::drop_back(s, text::only('-')) == s);
}

/// Normalizing a normalized name changes nothing.
pub proof fn law_slug_is_kept(name: Seq<char>)
    requires
        slug_outcome(name) is Ok,
    ensures
        slug_outcome(slug_outcome(name)->Ok_0) == slug_outcome(name),
{
    lemma_slug_shape(name);
    lemma_slug_of_slug(slug(name));
}

/// Replacing a character by another changes it where it stands.
pub proof fn lemma_replaced_one(s: Seq<char>, c: char, x: Seq<char>)
    requires
        x.len() == 1,
    ensures
        text::replaced(s, c, x) == s.map_values(
            |k: char|
                if k == c {
                    x[0]
                } else {
                    k
                },
        ),
    decreases s.len(),
{
    let f = |k: char|
        if k == c {
            x[0]
        } else {
            k
        };
    if s.len() == 0 {
        assert(text::replaced(s, c, x) == s.map_values(f));
    } else {
        lemma_replaced_one(s.drop_last(), c, x);
        assert(s.map_values(f) == s.drop_last().map_values(f).push(f(s.last())));
        assert(text::replaced(s, c, x) == s.map_values(f));
    }
}

/// Secret names hold upper case letters, digits and single underscores, with a
/// letter or digit at both ends.
pub proof fn law_secret_names_suit_environments(name: Seq<char>)
    requires
        secret_name_outcome(name) is Ok,
    ensures
        ({
            let s = secret_name_outcome(name)->Ok_0;
            &&& s.len() > 0
            &&& s[0] != '_'
            &&& s.last() != '_'
            &&& forall|i: int|
                0 <= i < s.len() ==> 'A' <= (#[trigger] s[i]) <= 'Z' || '0' <= s[i] <= '9' || s[i]
                    == '_'
            &&& forall|i: int| 0 < i < s.len() && (#[trigger] s[i]) == '_' ==> s[i - 1] != '_'
        }),
{
    reveal_strlit("_");
    let g = slug(name);
    lemma_slug_shape(name);
    lemma_replaced_one(g, '-', "_"@);
    let s = secret_name_outcome(name)->Ok_0;
    assert(s.len() == g.len());
    assert forall|i: int| 0 <= i < s.len() implies ('A' <= (#[trigger] s[i]) <= 'Z' || '0' <= s[i]
        <= '9' || s[i] == '_') && ((s[i] == '_') == (g[i] == '-')) by {
        assert('a' <= g[i] <= 'z' || '0' <= g[i] <= '9' || g[i] == '-');
    }
    assert(g.last() == g[g.len() - 1]);
    assert(s.last() == s[s.len() - 1]);
    assert forall|i: int| 0 < i < s.len() && (#[trigger] s[i]) == '_' implies s[i - 1] != '_' by {
        assert(g[i] == '-');
        assert((s[i - 1] == '_') == (g[i - 1] == '-'));
    }
}

/// Normalizing the name of a secret that was normalized changes nothing.
pub proof fn law_secret_name_is_kept(name: Seq<char>)
    requires
        secret_name_outcome(name) is Ok,
    ensures
        secret_name_outcome(secret_name_outcome(name)->Ok_0) == secret_name_outcome(name),
{
    reveal_strlit("_");
    reveal_strlit(".local");
    let g = slug(name);
    let s = secret_name_outcome(name)->Ok_0;
    lemma_slug_shape(name);
    lemma_replaced_one(g, '-', "_"@);
    law_secret_names_suit_environments(name);
    assert(!text::is_white(s[0]));
    assert(!text::is_white(s.last())) by {
        assert(s.last() == s[s.len() - 1]);
    }
    assert(text::drop_front(s, text::white()) == s);
    assert(text::drop_back(s, text::white()) == s);
    assert(!".local"@.is_suffix_of(s)) by {
        if ".local"@.is_suffix_of(s) {
            let k = s.len() - 6;
            assert(s.subrange(k, s.len() as int)[0] == ".local"@[0]);
            assert(s[k] == '.');
        }
    }
    assert forall|i: int| 0 <= i < s.len() implies secret_char(g[i], #[trigger] s[i]) by {
        assert('a' <= g[i] <= 'z' || '0' <= g[i] <= '9' || g[i] == '-');
    }
    lemma_dashed_of_secret(g, s);
    assert(text::drop_back(g, text::only('-')) == g);
}

/// Whether `c` is what a character `k` of a slug is in the name of a secret.
spec fn secret_char(k: char, c: char) -> bool {
    if k == '-' {
        c == '_'
    } else {
        text::is_alnum(c) && text::lower(c) == k
    }
}

proof fn lemma_dashed_of_secret(g: Seq<char>, s: Seq<char>)
    requires
        g.len() == s.len(),
        g.len() > 0 ==> g[0] != '-',
        forall|i: int| 0 < i < g.len() && (#[trigger] g[i]) == '-' ==> g[i - 1] != '-',
        forall|i: int| 0 <= i < s.len() ==> secret_char(g[i], #[trigger] s[i]),
    ensures
        dashed(s) == g,
    decreases s.len(),
{
    if s.len() > 0 {
        let (p, q) = (g.drop_last(), s.drop_last());
        assert forall|i: int| 0 < i < p.len() && (#[trigger] p[i]) == '-' implies p[i - 1]
            != '-' by {
            assert(p[i] == g[i]);
            assert(p[i - 1] == g[i - 1]);
        }
        assert forall|i: int| 0 <= i < q.len() implies secret_char(p[i], #[trigger] q[i]) by {
            assert(q[i] == s[i]);
        }
        lemma_dashed_of_secret(p, q);
        let n = s.len() - 1;
        assert(secret_char(g[n], s[n]));
        if g[n] == '-' {
            assert(p.len() > 0);
            assert(p.last() == g[n - 1]);
        }
        assert(g == p.push(g[n]));
    } else {
        assert(dashed(s) == g);
    }
}

// ---------------------------------------------------------------------------
// Times.

/// How times are laid out.
pub const DISPLAY_TIME_FORMAT: &'static str =
    "[year]-[month]-[day] [hour]:[minute]:[second] [offset_hour sign:mandatory][offset_minute]";

/// What is shown for a time stamp, given what the calendar has to show for it: that,
/// or else the number.
pub open spec fn time_text(ts: i64, shown: Option<Seq<char>>) -> Seq<char> {
    match shown {
        Some(s) => s,
        None => number::decimal(ts as int),
    }
}

/// What is shown for a time stamp, given what the calendar has to show for it.
pub fn time_or_number(ts: i64, shown: Option<String>) -> (r: String)
    ensures
        r@ == time_text(ts, text::opt_text(shown)),
{
    match shown {
        Some(s) => s,
        None => signed_text(ts),
    }
}

/// What is shown for a time stamp in a time zone `offset` seconds from UTC.
pub fn format_ts_at(ts: i64, offset: i32) -> (r: String)
    ensures
        r@ == time_text(ts, clock::time_shown(ts, offset, DISPLAY_TIME_FORMAT@)),
{
    time_or_number(ts, show_time(ts, offset, DISPLAY_TIME_FORMAT))
}

/// What is shown for a time stamp in the machine's time zone.
pub fn format_ts(ts: i64) -> (r: String)
    ensures
        exists|offset: i32|
            -93_600 < offset < 93_600 && r@ == time_text(
                ts,
                #[trigger] clock::time_shown(ts, offset, DISPLAY_TIME_FORMAT@),
            ),
{
    let offset: i32 = local_offset();
    format_ts_at(ts, offset)
}

} // verus!
