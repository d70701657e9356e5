//! Strings as sequences of characters: the searching, trimming, splitting and
//! number reading that the rest of the crate is built on.

use vstd::prelude::*;

verus! {

/// `String::push` appends one character to the end of the string.
pub assume_specification[ String::push ](s: &mut String, c: char)
    ensures
        final(s)@ == old(s)@.push(c),
;

// ---------------------------------------------------------------------------
// Views of optional and repeated text.

/// The contents of an optional string.
pub open spec fn opt_text(o: Option<String>) -> Option<Seq<char>> {
    match o {
        Some(s) => Some(s@),
        None => None,
    }
}

/// The contents of an optional string slice.
pub open spec fn opt_str(o: Option<&str>) -> Option<Seq<char>> {
    match o {
        Some(s) => Some(s@),
        None => None,
    }
}

/// The contents of several strings, in order.
pub open spec fn texts(v: Seq<String>) -> Seq<Seq<char>> {
    v.map_values(|s: String| s@)
}

/// What a fallible function hands back, with both sides as text.
pub open spec fn text_outcome(r: Result<String, String>) -> Result<Seq<char>, Seq<char>> {
    match r {
        Ok(s) => Ok(s@),
        Err(e) => Err(e@),
    }
}

/// What a fallible function hands back, with bytes on success.
pub open spec fn bytes_outcome(r: Result<Vec<u8>, String>) -> Result<Seq<u8>, Seq<char>> {
    match r {
        Ok(b) => Ok(b@),
        Err(e) => Err(e@),
    }
}

/// What a check hands back.
pub open spec fn unit_outcome(r: Result<(), String>) -> Result<(), Seq<char>> {
    match r {
        Ok(()) => Ok(()),
        Err(e) => Err(e@),
    }
}

/// A copy of an optional string.
pub fn copy_opt(o: &Option<String>) -> (r: Option<String>)
    ensures
        opt_text(r) == opt_text(*o),
        r == *o,
{
    match o {
        Some(s) => Some(s.clone()),
        None => None,
    }
}

/// A copy of several strings.
pub fn copy_texts(v: &Vec<String>) -> (r: Vec<String>)
    ensures
        texts(r@) == texts(v@),
        r@ == v@,
{
    let mut out: Vec<String> = Vec::new();
    let mut i: usize = 0;
    while i < v.len()
        invariant
            i <= v.len(),
            out@ == v@.take(i as int),
        decreases v.len() - i,
    {
        out.push(v[i].clone());
        proof {
            assert(v@.take(i as int + 1) == v@.take(i as int).push(v@[i as int]));
        }
        i += 1;
    }
    proof {
        assert(v@.take(v@.len() as int) == v@);
    }
    out
}

// ---------------------------------------------------------------------------
// Characters.

/// The characters of a string.
pub fn chars_of(s: &str) -> (r: Vec<char>)
    ensures
        r@ == s@,
{
    let mut out: Vec<char> = Vec::new();
    for c in it: s.chars()
        invariant
            out@ == s@.take(it.index() as int),
            it.seq() == s@,
    {
        out.push(c);
        proof {
            let k = it.index() as int;
            assert(s@.take(k + 1) == s@.take(k).push(s@[k]));
        }
    }
    proof {
        assert(s@.take(s@.len() as int) == s@);
    }
    out
}

/// The string made of `chars[from..to]`.
pub fn text_of(chars: &Vec<char>, from: usize, to: usize) -> (r: String)
    requires
        from <= to <= chars@.len(),
    ensures
        r@ == chars@.subrange(from as int, to as int),
{
    let mut out = String::new();
    let mut i: usize = from;
    while i < to
        invariant
            from <= i <= to <= chars@.len(),
            out@ == chars@.subrange(from as int, i as int),
        decreases to - i,
    {
        out.push(chars[i]);
        proof {
            assert(chars@.subrange(from as int, i as int + 1) == chars@.subrange(
                from as int,
                i as int,
            ).push(chars@[i as int]));
        }
        i += 1;
    }
    out
}

/// Whether two strings hold the same characters.
pub fn same(a: &str, b: &str) -> (r: bool)
    ensures
        r == (a@ == b@),
{
    a.to_owned() == b.to_owned()
}


// ---------------------------------------------------------------------------
// Trimming.

/// The Unicode characters with the property `White_Space`.
pub open spec fn is_white(c: char) -> bool {
    let n = c as u32;
    ||| 0x09 <= n <= 0x0d
    ||| n == 0x20
    ||| n == 0x85
    ||| n == 0xa0
    ||| n == 0x1680
    ||| 0x2000 <= n <= 0x200a
    ||| n == 0x2028
    ||| n == 0x2029
    ||| n == 0x202f
    ||| n == 0x205f
    ||| n == 0x3000
}

/// The white space characters, as a class.
pub open spec fn white() -> spec_fn(char) -> bool {
    |c: char| is_white(c)
}

/// The class that holds one character.
pub open spec fn only(x: char) -> spec_fn(char) -> bool {
    |c: char| c == x
}

/// `s` without the longest run of `p` at its front.
pub open spec fn drop_front(s: Seq<char>, p: spec_fn(char) -> bool) -> Seq<char>
    decreases s.len(),
{
    if s.len() > 0 && p(s[0]) {
        drop_front(s.skip(1), p)
    } else {
        s
    }
}

/// `s` without the longest run of `p` at its back.
pub open spec fn drop_back(s: Seq<char>, p: spec_fn(char) -> bool) -> Seq<char>
    decreases s.len(),
{
    if s.len() > 0 && p(s.last()) {
        drop_back(s.drop_last(), p)
    } else {
        s
    }
}

/// `s` without white space at either end.
pub open spec fn trimmed(s: Seq<char>) -> Seq<char> {
    drop_back(drop_front(s, white()), white())
}

/// `s` without the copies of `x` at its front.
pub open spec fn drop_prefixes(s: Seq<char>, x: Seq<char>) -> Seq<char>
    decreases s.len(),
{
    if 0 < x.len() && x.is_prefix_of(s) {
        drop_prefixes(s.skip(x.len() as int), x)
    } else {
        s
    }
}

/// `s` without the copies of `x` at its back.
pub open spec fn drop_suffixes(s: Seq<char>, x: Seq<char>) -> Seq<char>
    decreases s.len(),
{
    if 0 < x.len() && x.is_suffix_of(s) {
        drop_suffixes(s.take(s.len() - x.len()), x)
    } else {
        s
    }
}

proof fn lemma_drop_front(s: Seq<char>, p: spec_fn(char) -> bool, i: int)
    requires
        0 <= i <= s.len(),
        forall|j: int| 0 <= j < i ==> p(#[trigger] s[j]),
        i == s.len() || !p(s[i]),
    ensures
        drop_front(s, p) == s.skip(i),
    decreases i,
{
    if i > 0 {
        assert(p(s[0]));
        assert forall|j: int| 0 <= j < i - 1 implies p(#[trigger] s.skip(1)[j]) by {
            assert(p(s[j + 1]));
        }
        lemma_drop_front(s.skip(1), p, i - 1);
        assert(s.skip(1).skip(i - 1) == s.skip(i));
    } else {
        assert(s.skip(0) == s);
    }
}

proof fn lemma_drop_back(s: Seq<char>, p: spec_fn(char) -> bool, i: int)
    requires
        0 <= i <= s.len(),
        forall|j: int| i <= j < s.len() ==> p(#[trigger] s[j]),
        i == 0 || !p(s[i - 1]),
    ensures
        drop_back(s, p) == s.take(i),
    decreases s.len() - i,
{
    if i < s.len() {
        assert(p(s[s.len() - 1]));
        assert forall|j: int| i <= j < s.drop_last().len() implies p(
            #[trigger] s.drop_last()[j],
        ) by {
            assert(p(s[j]));
        }
        lemma_drop_back(s.drop_last(), p, i);
        assert(s.drop_last().take(i) == s.take(i));
    } else {
        assert(s.take(i) == s);
    }
}

/// What is left after trimming at the front is a tail of the string that does not
/// start with a character of the class.
pub proof fn lemma_drop_front_shape(s: Seq<char>, p: spec_fn(char) -> bool)
    ensures
        drop_front(s, p).len() <= s.len(),
        drop_front(s, p) == s.skip(s.len() - drop_front(s, p).len()),
        drop_front(s, p).len() > 0 ==> !p(drop_front(s, p)[0]),
    decreases s.len(),
{
    if s.len() > 0 && p(s[0]) {
        lemma_drop_front_shape(s.skip(1), p);
        let r = drop_front(s, p);
        assert(s.skip(1).skip(s.skip(1).len() - r.len()) == s.skip(s.len() - r.len()));
    } else {
        assert(s.skip(0) == s);
    }
}

/// What is left after trimming at the back is a head of the string that does not
/// end with a character of the class.
pub proof fn lemma_drop_back_shape(s: Seq<char>, p: spec_fn(char) -> bool)
    ensures
        drop_back(s, p).len() <= s.len(),
        drop_back(s, p) == s.take(drop_back(s, p).len() as int),
        drop_back(s, p).len() > 0 ==> !p(drop_back(s, p).last()),
    decreases s.len(),
{
    if s.len() > 0 && p(s.last()) {
        lemma_drop_back_shape(s.drop_last(), p);
        let r = drop_back(s, p);
        assert(s.drop_last().take(r.len() as int) == s.take(r.len() as int));
    } else {
        assert(s.take(s.len() as int) == s);
    }
}

/// Trimming twice is trimming once.
pub proof fn lemma_trimmed_idempotent(s: Seq<char>)
    ensures
        trimmed(trimmed(s)) == trimmed(s),
{
    let f = drop_front(s, white());
    let t = drop_back(f, white());
    lemma_drop_front_shape(s, white());
    lemma_drop_back_shape(f, white());
    if t.len() > 0 {
        assert(t[0] == f[0]);
        assert(drop_front(t, white()) == t);
        assert(drop_back(t, white()) == t);
    } else {
        assert(drop_front(t, white()) == t);
    }
}

/// Whether `c` is white space.
pub fn white_space(c: char) -> (r: bool)
    ensures
        r == is_white(c),
{
    let n: u32 = c as u32;
    (0x09 <= n && n <= 0x0d) || n == 0x20 || n == 0x85 || n == 0xa0 || n == 0x1680 || (0x2000 <= n
        && n <= 0x200a) || n == 0x2028 || n == 0x2029 || n == 0x202f || n == 0x205f || n == 0x3000
}

/// The string without white space at its ends.
pub fn trim(s: &str) -> (r: &str)
    ensures
        r@ == trimmed(s@),
{
    let chars = chars_of(s);
    let mut from: usize = 0;
    while from < chars.len() && white_space(chars[from])
        invariant
            from <= chars@.len(),
            forall|j: int| 0 <= j < from ==> is_white(#[trigger] chars@[j]),
        decreases chars@.len() - from,
    {
        from += 1;
    }
    let ghost f = chars@.skip(from as int);
    proof {
        assert(forall|j: int| 0 <= j < from ==> white()(#[trigger] chars@[j]));
        lemma_drop_front(chars@, white(), from as int);
    }
    let mut to: usize = chars.len();
    while to > from && white_space(chars[to - 1])
        invariant
            from <= to <= chars@.len(),
            forall|j: int| to <= j < chars@.len() ==> is_white(#[trigger] chars@[j]),
        decreases to,
    {
        to -= 1;
    }
    proof {
        assert(forall|j: int| to - from <= j < f.len() ==> white()(#[trigger] f[j]));
        lemma_drop_back(f, white(), to - from);
        assert(f.take(to - from) == chars@.subrange(from as int, to as int));
    }
    s.substring_char(from, to)
}

/// The string without the copies of `x` at its front.
pub fn trim_start_char(s: &str, x: char) -> (r: &str)
    ensures
        r@ == drop_front(s@, only(x)),
{
    let chars = chars_of(s);
    let mut from: usize = 0;
    while from < chars.len() && chars[from] == x
        invariant
            from <= chars@.len(),
            forall|j: int| 0 <= j < from ==> #[trigger] chars@[j] == x,
        decreases chars@.len() - from,
    {
        from += 1;
    }
    proof {
        assert(forall|j: int| 0 <= j < from ==> only(x)(#[trigger] chars@[j]));
        lemma_drop_front(chars@, only(x), from as int);
        assert(chars@.skip(from as int) == chars@.subrange(from as int, chars@.len() as int));
    }
    s.substring_char(from, chars.len())
}

/// The string without the copies of `x` at its back.
pub fn trim_end_char(s: &str, x: char) -> (r: &str)
    ensures
        r@ == drop_back(s@, only(x)),
{
    let chars = chars_of(s);
    let mut to: usize = chars.len();
    while to > 0 && chars[to - 1] == x
        invariant
            to <= chars@.len(),
            forall|j: int| to <= j < chars@.len() ==> #[trigger] chars@[j] == x,
        decreases to,
    {
        to -= 1;
    }
    proof {
        assert(forall|j: int| to <= j < chars@.len() ==> only(x)(#[trigger] chars@[j]));
        lemma_drop_back(chars@, only(x), to as int);
        assert(chars@.take(to as int) == chars@.subrange(0, to as int));
    }
    s.substring_char(0, to)
}

/// Whether `x` stands in `chars` at `at`.
pub fn stands_at(chars: &Vec<char>, x: &Vec<char>, at: usize) -> (r: bool)
    ensures
        r == (at + x@.len() <= chars@.len() && chars@.subrange(at as int, at + x@.len()) == x@),
{
    if at > chars.len() || x.len() > chars.len() - at {
        return false;
    }
    let mut i: usize = 0;
    while i < x.len()
        invariant
            i <= x.len(),
            at + x@.len() <= chars.len(),
            forall|j: int| 0 <= j < i ==> chars@[at + j] == #[trigger] x@[j],
        decreases x@.len() - i,
    {
        if chars[at + i] != x[i] {
            proof {
                assert(chars@.subrange(at as int, at + x@.len())[i as int] != x@[i as int]);
            }
            return false;
        }
        i += 1;
    }
    proof {
        assert(chars@.subrange(at as int, at + x@.len()) == x@);
    }
    true
}

/// The string without the copies of `x` at its front.
pub fn trim_start_text<'a>(s: &'a str, x: &str) -> (r: &'a str)
    ensures
        r@ == drop_prefixes(s@, x@),
{
    let chars = chars_of(s);
    let pat = chars_of(x);
    let mut from: usize = 0;
    if pat.len() > 0 {
        proof {
            assert(s@.skip(0) == s@);
        }
        while stands_at(&chars, &pat, from)
            invariant
                from <= chars.len(),
                pat@ == x@,
                chars@ == s@,
                x@.len() > 0,
                drop_prefixes(s@, x@) == drop_prefixes(s@.skip(from as int), x@),
            decreases chars@.len() - from,
        {
            proof {
                let rest = s@.skip(from as int);
                assert(rest.subrange(0, x@.len() as int) == s@.subrange(
                    from as int,
                    from + x@.len(),
                ));
                assert(x@.is_prefix_of(rest));
                assert(rest.skip(x@.len() as int) == s@.skip(from + x@.len()));
            }
            from += pat.len();
        }
        proof {
            let rest = s@.skip(from as int);
            if x@.is_prefix_of(rest) {
                assert(rest.subrange(0, x@.len() as int) == s@.subrange(
                    from as int,
                    from + x@.len(),
                ));
            }
        }
    }
    proof {
        assert(s@.skip(0) == s@);
        assert(s@.skip(from as int) == s@.subrange(from as int, s@.len() as int));
    }
    s.substring_char(from, chars.len())
}

/// The string without the copies of `x` at its back.
pub fn trim_end_text<'a>(s: &'a str, x: &str) -> (r: &'a str)
    ensures
        r@ == drop_suffixes(s@, x@),
{
    let chars = chars_of(s);
    let pat = chars_of(x);
    let mut to: usize = chars.len();
    if pat.len() > 0 {
        proof {
            assert(s@.take(to as int) == s@);
        }
        while to >= pat.len() && stands_at(&chars, &pat, to - pat.len())
            invariant
                to <= chars@.len(),
                pat@ == x@,
                chars@ == s@,
                x@.len() > 0,
                drop_suffixes(s@, x@) == drop_suffixes(s@.take(to as int), x@),
            decreases to,
        {
            proof {
                let head = s@.take(to as int);
                assert(head.subrange(to - x@.len(), to as int) == s@.subrange(
                    to - x@.len(),
                    to as int,
                ));
                assert(x@.is_suffix_of(head));
                assert(head.take(to - x@.len()) == s@.take(to - x@.len()));
            }
            to -= pat.len();
        }
        proof {
            let head = s@.take(to as int);
            if x@.is_suffix_of(head) {
                assert(head.subrange(to - x@.len(), to as int) == s@.subrange(
                    to - x@.len(),
                    to as int,
                ));
            }
        }
    }
    proof {
        assert(s@.take(s@.len() as int) == s@);
        assert(s@.take(to as int) == s@.subrange(0, to as int));
    }
    s.substring_char(0, to)
}

// ---------------------------------------------------------------------------
// Searching and splitting.

/// Where `c` first stands in `s`; the length of `s` if it does not.
pub open spec fn first_at(s: Seq<char>, c: char) -> int
    decreases s.len(),
{
    if s.len() == 0 || s[0] == c {
        0
    } else {
        1 + first_at(s.skip(1), c)
    }
}

/// Where `c` last stands in `s`; `-1` if it does not.
pub open spec fn last_at(s: Seq<char>, c: char) -> int
    decreases s.len(),
{
    if s.len() == 0 {
        -1
    } else if s.last() == c {
        s.len() - 1
    } else {
        last_at(s.drop_last(), c)
    }
}

/// `s` up to the first `c`, or all of it.
pub open spec fn until(s: Seq<char>, c: char) -> Seq<char> {
    s.take(first_at(s, c))
}

/// What stands before and after the first `c`.
pub open spec fn split_once(s: Seq<char>, c: char) -> Option<(Seq<char>, Seq<char>)> {
    if s.contains(c) {
        Some((s.take(first_at(s, c)), s.skip(first_at(s, c) + 1)))
    } else {
        None
    }
}

/// What stands before and after the last `c`.
pub open spec fn rsplit_once(s: Seq<char>, c: char) -> Option<(Seq<char>, Seq<char>)> {
    if s.contains(c) {
        Some((s.take(last_at(s, c)), s.skip(last_at(s, c) + 1)))
    } else {
        None
    }
}

/// The parts of `s` between the `c`s.
pub open spec fn pieces(s: Seq<char>, c: char) -> Seq<Seq<char>>
    decreases s.len(),
{
    if s.contains(c) && 0 <= first_at(s, c) < s.len() {
        seq![s.take(first_at(s, c))] + pieces(s.skip(first_at(s, c) + 1), c)
    } else {
        seq![s]
    }
}

/// Whether `x` stands somewhere in `s`.
pub open spec fn holds(s: Seq<char>, x: Seq<char>) -> bool {
    exists|i: int| 0 <= i <= s.len() - x.len() && #[trigger] s.subrange(i, i + x.len()) == x
}

pub proof fn lemma_first_at(s: Seq<char>, c: char, i: int)
    requires
        0 <= i <= s.len(),
        forall|j: int| 0 <= j < i ==> #[trigger] s[j] != c,
        i == s.len() || s[i] == c,
    ensures
        first_at(s, c) == i,
        s.contains(c) == (i < s.len()),
    decreases i,
{
    if i < s.len() {
        assert(s.contains(s[i]));
    }
    if i > 0 {
        assert(s[0] != c);
        assert forall|j: int| 0 <= j < i - 1 implies #[trigger] s.skip(1)[j] != c by {
            assert(s[j + 1] != c);
        }
        lemma_first_at(s.skip(1), c, i - 1);
    }
}

pub proof fn lemma_last_at(s: Seq<char>, c: char, i: int)
    requires
        -1 <= i < s.len(),
        forall|j: int| i < j < s.len() ==> #[trigger] s[j] != c,
        i == -1 || s[i] == c,
    ensures
        last_at(s, c) == i,
        s.contains(c) == (i >= 0),
    decreases s.len() - i,
{
    if i >= 0 {
        assert(s.contains(s[i]));
    }
    if i < s.len() - 1 {
        assert(s.last() == s[s.len() - 1]);
        assert forall|j: int| i < j < s.drop_last().len() implies #[trigger] s.drop_last()[j]
            != c by {
            assert(s[j] != c);
        }
        lemma_last_at(s.drop_last(), c, i);
    }
}

/// Where the first `c` stands is a place in the string exactly when there is one.
pub proof fn lemma_first_at_shape(s: Seq<char>, c: char)
    ensures
        0 <= first_at(s, c) <= s.len(),
        s.contains(c) == (first_at(s, c) < s.len()),
        first_at(s, c) < s.len() ==> s[first_at(s, c)] == c,
        forall|j: int| 0 <= j < first_at(s, c) ==> #[trigger] s[j] != c,
    decreases s.len(),
{
    if s.len() > 0 && s[0] != c {
        lemma_first_at_shape(s.skip(1), c);
        let k = first_at(s.skip(1), c);
        assert forall|j: int| 0 <= j < k + 1 implies #[trigger] s[j] != c by {
            if j > 0 {
                assert(s.skip(1)[j - 1] != c);
            }
        }
        if k + 1 < s.len() {
            assert(s[k + 1] == s.skip(1)[k]);
        }
        lemma_first_at(s, c, k + 1);
    } else if s.len() > 0 {
        assert(s.contains(s[0]));
    }
}

/// Where `c` first stands in `chars` from `from` on; the length if it does not.
pub fn find_from(chars: &Vec<char>, c: char, from: usize) -> (r: usize)
    requires
        from <= chars@.len(),
    ensures
        from <= r <= chars@.len(),
        forall|j: int| from <= j < r ==> #[trigger] chars@[j] != c,
        r < chars@.len() ==> chars@[r as int] == c,
        r - from == first_at(chars@.skip(from as int), c),
{
    let mut i: usize = from;
    while i < chars.len() && chars[i] != c
        invariant
            from <= i <= chars.len(),
            forall|j: int| from <= j < i ==> #[trigger] chars@[j] != c,
        decreases chars.len() - i,
    {
        i += 1;
    }
    proof {
        let rest = chars@.skip(from as int);
        assert forall|j: int| 0 <= j < i - from implies #[trigger] rest[j] != c by {
            assert(chars@[from + j] != c);
        }
        lemma_first_at(rest, c, i - from);
    }
    i
}

/// Whether `c` stands in `s`.
pub fn contains_char(s: &str, c: char) -> (r: bool)
    ensures
        r == s@.contains(c),
{
    let chars = chars_of(s);
    let i: usize = find_from(&chars, c, 0);
    proof {
        assert(s@.skip(0) == s@);
        lemma_first_at_shape(s@, c);
    }
    i < chars.len()
}

/// The string up to the first `c`, or all of it.
pub fn until_char(s: &str, c: char) -> (r: &str)
    ensures
        r@ == until(s@, c),
{
    let chars = chars_of(s);
    let i: usize = find_from(&chars, c, 0);
    proof {
        assert(s@.skip(0) == s@);
        assert(s@.take(i as int) == s@.subrange(0, i as int));
    }
    s.substring_char(0, i)
}

/// What stands before and after the first `c`, if there is one.
pub fn split_once_char(s: &str, c: char) -> (r: Option<(&str, &str)>)
    ensures
        match r {
            Some(p) => split_once(s@, c) == Some((p.0@, p.1@)),
            None => split_once(s@, c) is None,
        },
{
    let chars = chars_of(s);
    let i: usize = find_from(&chars, c, 0);
    proof {
        assert(s@.skip(0) == s@);
        lemma_first_at_shape(s@, c);
    }
    if i < chars.len() {
        proof {
            assert(s@.take(i as int) == s@.subrange(0, i as int));
            assert(s@.skip(i + 1) == s@.subrange(i + 1, s@.len() as int));
        }
        Some((s.substring_char(0, i), s.substring_char(i + 1, chars.len())))
    } else {
        None
    }
}

/// What stands before and after the last `c`, if there is one.
pub fn rsplit_once_char(s: &str, c: char) -> (r: Option<(&str, &str)>)
    ensures
        match r {
            Some(p) => rsplit_once(s@, c) == Some((p.0@, p.1@)),
            None => rsplit_once(s@, c) is None,
        },
{
    let chars = chars_of(s);
    let mut i: usize = chars.len();
    while i > 0 && chars[i - 1] != c
        invariant
            i <= chars.len(),
            forall|j: int| i <= j < chars@.len() ==> #[trigger] chars@[j] != c,
        decreases i,
    {
        i -= 1;
    }
    proof {
        lemma_last_at(s@, c, i - 1);
    }
    if i > 0 {
        proof {
            assert(s@.take(i - 1) == s@.subrange(0, i - 1));
            assert(s@.skip(i as int) == s@.subrange(i as int, s@.len() as int));
        }
        Some((s.substring_char(0, i - 1), s.substring_char(i, chars.len())))
    } else {
        None
    }
}

/// The parts of the string between the `c`s.
pub fn split_char(s: &str, c: char) -> (r: Vec<String>)
    ensures
        texts(r@) == pieces(s@, c),
{
    let chars = chars_of(s);
    let mut out: Vec<String> = Vec::new();
    let mut from: usize = 0;
    proof {
        assert(s@.skip(0) == s@);
        assert(texts(out@) + pieces(s@, c) == pieces(s@, c));
    }
    loop
        invariant_except_break
            texts(out@) + pieces(s@.skip(from as int), c) == pieces(s@, c),
        invariant
            from <= chars@.len(),
            chars@ == s@,
            chars.len() == chars@.len(),
        ensures
            texts(out@) == pieces(s@, c),
        decreases chars@.len() - from,
    {
        let at: usize = find_from(&chars, c, from);
        let ghost rest = s@.skip(from as int);
        proof {
            lemma_first_at_shape(rest, c);
            assert(rest.take(at - from) == s@.subrange(from as int, at as int));
        }
        let piece = text_of(&chars, from, at);
        let ghost before = texts(out@);
        out.push(piece);
        proof {
            assert(texts(out@) == before.push(piece@));
        }
        if at >= chars.len() {
            proof {
                assert(rest.take(rest.len() as int) == rest);
                assert(pieces(rest, c) == seq![rest]);
                assert(before.push(rest) == before + seq![rest]);
            }
            break ;
        }
        proof {
            assert(rest.skip(at - from + 1) == s@.skip(at + 1));
            assert(before + (seq![piece@] + pieces(s@.skip(at + 1), c)) == before.push(piece@)
                + pieces(s@.skip(at + 1), c));
        }
        from = at + 1;
    }
    out
}

/// Whether the string begins with `x`.
pub fn starts_with(s: &str, x: &str) -> (r: bool)
    ensures
        r == x@.is_prefix_of(s@),
{
    let chars = chars_of(s);
    let pat = chars_of(x);
    stands_at(&chars, &pat, 0)
}

/// What follows `x`, if the string begins with it.
pub fn strip_prefix<'a>(s: &'a str, x: &str) -> (r: Option<&'a str>)
    ensures
        match r {
            Some(rest) => x@.is_prefix_of(s@) && rest@ == s@.skip(x@.len() as int),
            None => !x@.is_prefix_of(s@),
        },
{
    let chars = chars_of(s);
    let pat = chars_of(x);
    if stands_at(&chars, &pat, 0) {
        proof {
            assert(s@.skip(x@.len() as int) == s@.subrange(x@.len() as int, s@.len() as int));
        }
        Some(s.substring_char(pat.len(), chars.len()))
    } else {
        None
    }
}

/// Whether `x` stands somewhere in the string.
pub fn contains(s: &str, x: &str) -> (r: bool)
    ensures
        r == holds(s@, x@),
{
    let chars = chars_of(s);
    let pat = chars_of(x);
    let mut i: usize = 0;
    if pat.len() > chars.len() {
        return false;
    }
    while i <= chars.len() - pat.len()
        invariant
            chars@ == s@,
            pat@ == x@,
            pat.len() <= chars.len(),
            i <= chars.len() - pat.len() + 1,
            forall|j: int| 0 <= j < i ==> #[trigger] s@.subrange(j, j + x@.len()) != x@,
        decreases chars.len() - pat.len() + 1 - i,
    {
        if stands_at(&chars, &pat, i) {
            return true;
        }
        if i == chars.len() - pat.len() {
            return false;
        }
        i += 1;
    }
    false
}

// ---------------------------------------------------------------------------
// Words.

/// The first run of characters of `s` that are not white space.
pub open spec fn first_word(s: Seq<char>) -> Seq<char> {
    let t = drop_front(s, white());
    t.take(word_end(t))
}

/// What follows the first word of `s`.
pub open spec fn after_word(s: Seq<char>) -> Seq<char> {
    let t = drop_front(s, white());
    t.skip(word_end(t))
}

/// Where the first white space of `s` stands; its length if there is none.
pub open spec fn word_end(s: Seq<char>) -> int
    decreases s.len(),
{
    if s.len() == 0 || is_white(s[0]) {
        0
    } else {
        1 + word_end(s.skip(1))
    }
}

proof fn lemma_word_end(s: Seq<char>, i: int)
    requires
        0 <= i <= s.len(),
        forall|j: int| 0 <= j < i ==> !is_white(#[trigger] s[j]),
        i == s.len() || is_white(s[i]),
    ensures
        word_end(s) == i,
    decreases i,
{
    if i > 0 {
        assert(!is_white(s[0]));
        assert forall|j: int| 0 <= j < i - 1 implies !is_white(#[trigger] s.skip(1)[j]) by {
            assert(!is_white(s[j + 1]));
        }
        lemma_word_end(s.skip(1), i - 1);
    }
}

/// The first word of the string and what follows it.
pub fn next_word(s: &str) -> (r: (&str, &str))
    ensures
        r.0@ == first_word(s@),
        r.1@ == after_word(s@),
{
    let chars = chars_of(s);
    let mut from: usize = 0;
    while from < chars.len() && white_space(chars[from])
        invariant
            from <= chars@.len(),
            forall|j: int| 0 <= j < from ==> is_white(#[trigger] chars@[j]),
        decreases chars@.len() - from,
    {
        from += 1;
    }
    let ghost t = chars@.skip(from as int);
    proof {
        assert(forall|j: int| 0 <= j < from ==> white()(#[trigger] chars@[j]));
        lemma_drop_front(chars@, white(), from as int);
    }
    let mut to: usize = from;
    while to < chars.len() && !white_space(chars[to])
        invariant
            from <= to <= chars@.len(),
            forall|j: int| from <= j < to ==> !is_white(#[trigger] chars@[j]),
        decreases chars@.len() - to,
    {
        to += 1;
    }
    proof {
        assert(forall|j: int| 0 <= j < to - from ==> !is_white(#[trigger] t[j]));
        lemma_word_end(t, to - from);
        assert(t.take(to - from) == s@.subrange(from as int, to as int));
        assert(t.skip(to - from) == s@.subrange(to as int, s@.len() as int));
    }
    (s.substring_char(from, to), s.substring_char(to, chars.len()))
}

// ---------------------------------------------------------------------------
// Rewriting.

/// `s` with every `c` replaced by `x`.
pub open spec fn replaced(s: Seq<char>, c: char, x: Seq<char>) -> Seq<char>
    decreases s.len(),
{
    if s.len() == 0 {
        Seq::empty()
    } else {
        replaced(s.drop_last(), c, x) + (if s.last() == c {
            x
        } else {
            seq![s.last()]
        })
    }
}

/// An ASCII letter or digit.
pub open spec fn is_alnum(c: char) -> bool {
    ||| 'a' <= c <= 'z'
    ||| 'A' <= c <= 'Z'
    ||| '0' <= c <= '9'
}

/// `c`, in lower case if it is an ASCII letter.
pub open spec fn lower(c: char) -> char {
    if 'A' <= c <= 'Z' {
        (c as u8 + 32) as u8 as char
    } else {
        c
    }
}

/// `c`, in upper case if it is an ASCII letter.
pub open spec fn upper(c: char) -> char {
    if 'a' <= c <= 'z' {
        (c as u8 - 32) as u8 as char
    } else {
        c
    }
}

/// `s` with its ASCII letters in lower case.
pub open spec fn lowered(s: Seq<char>) -> Seq<char> {
    s.map_values(|c: char| lower(c))
}

/// `s` with its ASCII letters in upper case.
pub open spec fn uppered(s: Seq<char>) -> Seq<char> {
    s.map_values(|c: char| upper(c))
}

/// Whether `c` is an ASCII letter or digit.
pub fn alnum(c: char) -> (r: bool)
    ensures
        r == is_alnum(c),
{
    ('a' <= c && c <= 'z') || ('A' <= c && c <= 'Z') || ('0' <= c && c <= '9')
}

/// `c`, in lower case if it is an ASCII letter.
pub fn to_lower(c: char) -> (r: char)
    ensures
        r == lower(c),
{
    if 'A' <= c && c <= 'Z' {
        (c as u8 + 32) as char
    } else {
        c
    }
}

/// `c`, in upper case if it is an ASCII letter.
pub fn to_upper(c: char) -> (r: char)
    ensures
        r == upper(c),
{
    if 'a' <= c && c <= 'z' {
        (c as u8 - 32) as char
    } else {
        c
    }
}

/// The string with every `c` replaced by `x`.
pub fn replace_char(s: &str, c: char, x: &str) -> (r: String)
    ensures
        r@ == replaced(s@, c, x@),
{
    let chars = chars_of(s);
    let mut out = String::new();
    let mut i: usize = 0;
    while i < chars.len()
        invariant
            i <= chars.len(),
            chars@ == s@,
            out@ == replaced(s@.take(i as int), c, x@),
        decreases chars.len() - i,
    {
        proof {
            let next = s@.take(i + 1);
            assert(next.drop_last() == s@.take(i as int));
            assert(next.last() == s@[i as int]);
        }
        if chars[i] == c {
            out.append(x);
        } else {
            out.push(chars[i]);
        }
        i += 1;
    }
    proof {
        assert(s@.take(s@.len() as int) == s@);
    }
    out
}

/// The string with its ASCII letters in lower case.
pub fn lowercase(s: &str) -> (r: String)
    ensures
        r@ == lowered(s@),
{
    let chars = chars_of(s);
    let mut out = String::new();
    let mut i: usize = 0;
    while i < chars.len()
        invariant
            i <= chars.len(),
            chars@ == s@,
            out@ == lowered(s@).take(i as int),
        decreases chars.len() - i,
    {
        out.push(to_lower(chars[i]));
        proof {
            assert(lowered(s@).take(i + 1) == lowered(s@).take(i as int).push(lower(s@[i as int])));
        }
        i += 1;
    }
    proof {
        assert(lowered(s@).take(s@.len() as int) == lowered(s@));
    }
    out
}

/// The string with its ASCII letters in upper case.
pub fn uppercase(s: &str) -> (r: String)
    ensures
        r@ == uppered(s@),
{
    let chars = chars_of(s);
    let mut out = String::new();
    let mut i: usize = 0;
    while i < chars.len()
        invariant
            i <= chars.len(),
            chars@ == s@,
            out@ == uppered(s@).take(i as int),
        decreases chars.len() - i,
    {
        out.push(to_upper(chars[i]));
        proof {
            assert(uppered(s@).take(i + 1) == uppered(s@).take(i as int).push(upper(s@[i as int])));
        }
        i += 1;
    }
    proof {
        assert(uppered(s@).take(s@.len() as int) == uppered(s@));
    }
    out
}

// ---------------------------------------------------------------------------
// Layout.

/// `n` spaces, or none.
pub open spec fn spaces(n: int) -> Seq<char> {
    Seq::new(
        if n > 0 {
            n as nat
        } else {
            0
        },
        |i: int| ' ',
    )
}

/// `s`, filled with spaces up to `width` characters.
pub open spec fn padded(s: Seq<char>, width: int) -> Seq<char> {
    s + spaces(width - s.len())
}

/// The parts of `v` with `sep` between them.
pub open spec fn joined(v: Seq<Seq<char>>, sep: Seq<char>) -> Seq<char>
    decreases v.len(),
{
    if v.len() == 0 {
        Seq::empty()
    } else if v.len() == 1 {
        v[0]
    } else {
        joined(v.drop_last(), sep) + sep + v.last()
    }
}

/// The string, filled with spaces up to `width` characters.
pub fn pad(s: &str, width: usize) -> (r: String)
    ensures
        r@ == padded(s@, width as int),
{
    let mut out = s.to_owned();
    let n: usize = s.unicode_len();
    let mut i: usize = n;
    proof {
        assert(s@ + spaces(0) == s@);
    }
    while i < width
        invariant
            n == s@.len(),
            n <= i,
            i <= width || n > width,
            n > width ==> i == n,
            out@ == s@ + spaces(i - n),
        decreases width - i,
    {
        out.push(' ');
        proof {
            assert((s@ + spaces(i - n)).push(' ') == s@ + spaces(i - n + 1));
        }
        i += 1;
    }
    proof {
        if n > width {
            assert(s@ + spaces(width - n) == s@ + spaces(0));
        }
    }
    out
}

/// The strings with `sep` between them.
pub fn join(v: &Vec<String>, sep: &str) -> (r: String)
    ensures
        r@ == joined(texts(v@), sep@),
{
    let mut out = String::new();
    let mut i: usize = 0;
    while i < v.len()
        invariant
            i <= v.len(),
            out@ == joined(texts(v@).take(i as int), sep@),
        decreases v.len() - i,
    {
        proof {
            let next = texts(v@).take(i + 1);
            assert(next.drop_last() == texts(v@).take(i as int));
            assert(next.last() == v@[i as int]@);
        }
        if i > 0 {
            out.append(sep);
        }
        out.append(v[i].as_str());
        proof {
            if i == 0 {
                assert(out@ == v@[0]@);
            }
        }
        i += 1;
    }
    proof {
        assert(texts(v@).take(v@.len() as int) == texts(v@));
    }
    out
}

} // verus!
