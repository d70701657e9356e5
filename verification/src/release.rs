//! Releases of Via: their names, their order, and how they are installed.

use crate::number;
use crate::number::parse_unsigned;
use crate::process::{program2, program4, Run, RunView};
use crate::text;
use crate::text::{alnum, chars_of, split_char, trim, trim_start_char};
use vstd::prelude::*;

verus! {

/// Where releases are published.
pub const UPDATE_REPO: &'static str = "pompeii-labs/via";

/// The string under `key` at the top of a JSON document, as `serde_json` reads it:
/// nothing if the text is not JSON, or holds no string there.
pub uninterp spec fn json_member(body: Seq<char>, key: Seq<char>) -> Option<Seq<char>>;

/// Calls `serde_json::from_str` for a `serde_json::Value`, and `get` and `as_str` on
/// the value.
#[verifier::external_body]
pub(crate) fn read_json_member(body: &str, key: &str) -> (r: Option<String>)
    ensures
        text::opt_text(r) == json_member(body@, key@),
{
    let value: serde_json::Value = serde_json::from_str(body).ok()?;
    value.get(key)?.as_str().map(|text| text.to_string())
}

/// A character that may stand in the name of a release.
pub open spec fn is_release_char(c: char) -> bool {
    text::is_alnum(c) || c == '.' || c == '-' || c == '_'
}

/// The name of a release that a shell can be given as it is.
pub open spec fn is_release(s: Seq<char>) -> bool {
    s.len() > 0 && forall|i: int| 0 <= i < s.len() ==> is_release_char(#[trigger] s[i])
}

/// The release that someone means, or what is said of it.
pub open spec fn release_outcome(s: Seq<char>) -> Result<Seq<char>, Seq<char>> {
    let v = text::drop_front(text::trimmed(s), text::only('v'));
    if is_release(v) {
        Ok(v)
    } else {
        Err("invalid Via release version '"@ + v + "'"@)
    }
}

/// A part of a version as a number; what is not a number counts as zero.
pub open spec fn part_value(s: Seq<char>) -> u64 {
    match number::read_unsigned(s, u64::MAX as int) {
        Some(n) => n as u64,
        None => 0,
    }
}

/// The numbers of a version.
pub open spec fn version_numbers(s: Seq<char>) -> Seq<u64> {
    text::pieces(text::drop_front(s, text::only('v')), '.').map_values(
        |p: Seq<char>| part_value(p),
    )
}

/// Whether the version `a` comes before `b`: the first number in which they differ
/// decides, and a version comes before its own continuations.
pub open spec fn earlier(a: Seq<u64>, b: Seq<u64>) -> bool
    decreases a.len(),
{
    if b.len() == 0 {
        false
    } else if a.len() == 0 {
        true
    } else if a[0] != b[0] {
        a[0] < b[0]
    } else {
        earlier(a.skip(1), b.skip(1))
    }
}

/// Whether the release `latest` is newer than `current`.
pub open spec fn is_newer(latest: Seq<char>, current: Seq<char>) -> bool {
    earlier(version_numbers(current), version_numbers(latest))
}

/// What installs a release on the machine where it is run.
pub open spec fn update_line(version: Seq<char>) -> Seq<char> {
    "if command -v curl >/dev/null 2>&1; then curl -fsSL https://raw.githubusercontent.com/pompeii-labs/via/main/install.sh | bash -s -- "@
        + version
        + "; elif command -v wget >/dev/null 2>&1; then wget -q https://raw.githubusercontent.com/pompeii-labs/via/main/install.sh -O - | bash -s -- "@
        + version + "; else echo 'update needs curl or wget' >&2; exit 1; fi"@
}

/// The release that someone means.
pub fn normalize_release_version(version: &str) -> (r: Result<String, String>)
    ensures
        text::text_outcome(r) == release_outcome(version@),
{
    let version = trim_start_char(trim(version), 'v');
    let chars = chars_of(version);
    let mut ok = chars.len() > 0;
    let mut i: usize = 0;
    while i < chars.len() && ok
        invariant
            i <= chars.len(),
            ok ==> chars@.len() > 0 && forall|j: int|
                0 <= j < i ==> is_release_char(#[trigger] chars@[j]),
            !ok ==> !is_release(chars@),
        decreases chars.len() - i,
    {
        let c: char = chars[i];
        if !(alnum(c) || c == '.' || c == '-' || c == '_') {
            proof {
                assert(!is_release_char(chars@[i as int]));
            }
            ok = false;
        }
        i += 1;
    }
    if ok {
        Ok(version.to_owned())
    } else {
        Err("invalid Via release version '".to_owned().concat(version).concat("'"))
    }
}

/// The numbers of a version.
pub fn version_parts(version: &str) -> (r: Vec<u64>)
    ensures
        r@ == version_numbers(version@),
{
    let pieces = split_char(trim_start_char(version, 'v'), '.');
    let ghost all = version_numbers(version@);
    let ghost parts = text::texts(pieces@);
    let mut out: Vec<u64> = Vec::new();
    let mut i: usize = 0;
    while i < pieces.len()
        invariant
            i <= pieces.len(),
            parts == text::texts(pieces@),
            all == parts.map_values(|p: Seq<char>| part_value(p)),
            out@ == all.take(i as int),
        decreases pieces.len() - i,
    {
        let n: u64 = match parse_unsigned(pieces[i].as_str(), u64::MAX) {
            Some(n) => n,
            None => 0,
        };
        out.push(n);
        proof {
            assert(parts[i as int] == pieces@[i as int]@);
            assert(all[i as int] == n);
            assert(all.take(i + 1) == all.take(i as int).push(n));
        }
        i += 1;
    }
    proof {
        assert(all.take(all.len() as int) == all);
    }
    out
}

proof fn lemma_earlier_skip(a: Seq<u64>, b: Seq<u64>, i: int)
    requires
        0 <= i <= a.len(),
        i <= b.len(),
        forall|j: int| 0 <= j < i ==> #[trigger] a[j] == b[j],
    ensures
        earlier(a, b) == earlier(a.skip(i), b.skip(i)),
    decreases i,
{
    if i > 0 {
        assert(a[0] == b[0]);
        assert forall|j: int| 0 <= j < i - 1 implies #[trigger] a.skip(1)[j] == b.skip(1)[j] by {
            assert(a[j + 1] == b[j + 1]);
        }
        lemma_earlier_skip(a.skip(1), b.skip(1), i - 1);
        assert(a.skip(1).skip(i - 1) == a.skip(i));
        assert(b.skip(1).skip(i - 1) == b.skip(i));
    } else {
        assert(a.skip(0) == a);
        assert(b.skip(0) == b);
    }
}

/// Whether the release `latest` is newer than `current`.
pub fn version_newer(latest: &str, current: &str) -> (r: bool)
    ensures
        r == is_newer(latest@, current@),
{
    let a = version_parts(current);
    let b = version_parts(latest);
    let mut i: usize = 0;
    while i < a.len() && i < b.len() && a[i] == b[i]
        invariant
            i <= a.len(),
            i <= b.len(),
            forall|j: int| 0 <= j < i ==> #[trigger] a@[j] == b@[j],
        decreases a.len() - i,
    {
        i += 1;
    }
    proof {
        lemma_earlier_skip(a@, b@, i as int);
    }
    if i == b.len() {
        false
    } else if i == a.len() {
        true
    } else {
        a[i] < b[i]
    }
}

/// No release is newer than itself.
pub proof fn law_not_newer_than_itself(v: Seq<char>)
    ensures
        !is_newer(v, v),
{
    lemma_earlier_irreflexive(version_numbers(v));
}

proof fn lemma_earlier_irreflexive(a: Seq<u64>)
    ensures
        !earlier(a, a),
    decreases a.len(),
{
    if a.len() > 0 {
        lemma_earlier_irreflexive(a.skip(1));
    }
}

proof fn lemma_earlier_transitive(a: Seq<u64>, b: Seq<u64>, c: Seq<u64>)
    requires
        earlier(a, b),
        earlier(b, c),
    ensures
        earlier(a, c),
    decreases a.len(),
{
    if a.len() > 0 && a[0] == b[0] && b[0] == c[0] {
        lemma_earlier_transitive(a.skip(1), b.skip(1), c.skip(1));
    }
}

/// Being newer carries over from release to release, and never runs both ways.
pub proof fn law_newer_is_an_order(a: Seq<char>, b: Seq<char>, c: Seq<char>)
    requires
        is_newer(a, b),
        is_newer(b, c),
    ensures
        is_newer(a, c),
        !is_newer(b, a),
{
    lemma_earlier_transitive(version_numbers(c), version_numbers(b), version_numbers(a));
    if is_newer(b, a) {
        lemma_earlier_transitive(version_numbers(b), version_numbers(a), version_numbers(b));
        lemma_earlier_irreflexive(version_numbers(b));
    }
}

/// What installs a release on the machine where it is run.
pub fn update_shell_command(version: &str) -> (r: String)
    ensures
        r@ == update_line(version@),
{
    "if command -v curl >/dev/null 2>&1; then curl -fsSL https://raw.githubusercontent.com/pompeii-labs/via/main/install.sh | bash -s -- ".to_owned().concat(
        version,
    ).concat(
        "; elif command -v wget >/dev/null 2>&1; then wget -q https://raw.githubusercontent.com/pompeii-labs/via/main/install.sh -O - | bash -s -- ",
    ).concat(version).concat("; else echo 'update needs curl or wget' >&2; exit 1; fi")
}

/// The name of a release without the letter that its tag begins with.
pub fn release_of_tag(tag: Option<String>) -> (r: Option<String>)
    ensures
        text::opt_text(r) == (match tag {
            Some(t) => Some(text::drop_front(t@, text::only('v'))),
            None => None,
        }),
{
    match tag {
        Some(t) => Some(trim_start_char(t.as_str(), 'v').to_owned()),
        None => None,
    }
}

/// The latest release, from what the place where releases are published says of it.
pub fn parse_latest_release_version(body: &str) -> (r: Option<String>)
    ensures
        text::opt_text(r) == (match json_member(body@, "tag_name"@) {
            Some(t) => Some(text::drop_front(t, text::only('v'))),
            None => None,
        }),
{
    release_of_tag(read_json_member(body, "tag_name"))
}

/// Where the latest release is looked up.
pub open spec fn lookup_url(repo: Option<Seq<char>>) -> Seq<char> {
    "https://api.github.com/repos/"@ + (match repo {
        Some(r) => r,
        None => UPDATE_REPO@,
    }) + "/releases/latest"@
}

/// Where the latest release is looked up; `repo` is what the environment says of it.
pub fn release_url(repo: Option<&str>) -> (r: String)
    ensures
        r@ == lookup_url(text::opt_str(repo)),
{
    let name = match repo {
        Some(r) => r,
        None => UPDATE_REPO,
    };
    "https://api.github.com/repos/".to_owned().concat(name).concat("/releases/latest")
}

/// The latest release, from what was found at `url`.
pub fn latest_release_version(url: &str, body: &str) -> (r: Result<String, String>)
    ensures
        match r {
            Ok(v) => json_member(body@, "tag_name"@) is Some && v@ == text::drop_front(
                json_member(body@, "tag_name"@)->Some_0,
                text::only('v'),
            ),
            Err(e) => json_member(body@, "tag_name"@) is None && e@
                == "could not find latest Via release at "@ + url@,
        },
{
    match parse_latest_release_version(body) {
        Some(v) => Ok(v),
        None => Err("could not find latest Via release at ".to_owned().concat(url)),
    }
}

/// What is shown when someone asks whether there is a newer release.
pub open spec fn check_lines(latest: Seq<char>, current: Seq<char>) -> Seq<Seq<char>> {
    seq![
        "current: "@ + current,
        "latest:  "@ + latest,
        if is_newer(latest, current) {
            "update:  available"@
        } else {
            "update:  not needed"@
        },
    ]
}

/// What is shown when someone asks whether there is a newer release.
pub fn print_update_check(latest: &str, current: &str) -> (r: Vec<String>)
    ensures
        text::texts(r@) == check_lines(latest@, current@),
{
    let verdict = if version_newer(latest, current) {
        "update:  available"
    } else {
        "update:  not needed"
    };
    let v = vec![
        "current: ".to_owned().concat(current),
        "latest:  ".to_owned().concat(latest),
        verdict.to_owned(),
    ];
    proof {
        assert(text::texts(v@) =~= check_lines(latest@, current@));
    }
    v
}

/// What is run to download what is at an address, or what is said where nothing is
/// there to do it.
pub open spec fn download_outcome(curl: bool, wget: bool, url: Seq<char>) -> Result<
    RunView,
    Seq<char>,
> {
    if curl {
        Ok(RunView::Program { program: "curl"@, args: seq!["-fsSL"@, url] })
    } else if wget {
        Ok(RunView::Program { program: "wget"@, args: seq!["-q"@, url, "-O"@, "-"@] })
    } else {
        Err("update needs curl or wget"@)
    }
}

/// Finds out what is run to download what is at an address, where `curl` and `wget` say
/// which programs are there.
pub fn download_run(curl: bool, wget: bool, url: &str) -> (r: Result<Run, String>)
    ensures
        match r {
            Ok(run) => download_outcome(curl, wget, url@) == Ok::<RunView, Seq<char>>(run@),
            Err(e) => download_outcome(curl, wget, url@) == Err::<RunView, Seq<char>>(e@),
        },
{
    if curl {
        Ok(program2("curl", "-fsSL", url))
    } else if wget {
        Ok(program4("wget", "-q", url, "-O", "-"))
    } else {
        Err("update needs curl or wget".to_owned())
    }
}

/// What is said of a release lookup that failed, or what it gave.
pub fn lookup_output(success: bool, stdout: &str, stderr: &str) -> (r: Result<String, String>)
    ensures
        text::text_outcome(r) == (if success {
            Ok::<Seq<char>, Seq<char>>(stdout@)
        } else {
            Err("release lookup failed: "@ + stderr@)
        }),
{
    if success {
        Ok(stdout.to_owned())
    } else {
        Err("release lookup failed: ".to_owned().concat(stderr))
    }
}

// ---------------------------------------------------------------------------
// Versions that are numbers joined by dots.

/// Numbers in decimal with dots between them.
pub open spec fn dotted(numbers: Seq<u64>) -> Seq<char>
    decreases numbers.len(),
{
    if numbers.len() == 0 {
        Seq::empty()
    } else if numbers.len() == 1 {
        number::decimal_nat(numbers[0] as nat)
    } else {
        number::decimal_nat(numbers[0] as nat) + seq!['.'] + dotted(numbers.skip(1))
    }
}

proof fn lemma_part_value(n: u64)
    ensures
        part_value(number::decimal_nat(n as nat)) == n,
        !number::decimal_nat(n as nat).contains('.'),
        number::decimal_nat(n as nat).len() > 0,
        number::is_digit(number::decimal_nat(n as nat)[0]),
{
    number::lemma_decimal_nat(n as nat);
    let d = number::decimal_nat(n as nat);
    assert(number::is_digit(d[0]));
    if d.contains('.') {
        let i = choose|i: int| 0 <= i < d.len() && d[i] == '.';
        assert(number::is_digit(d[i]));
    }
}

proof fn lemma_dotted_numbers(numbers: Seq<u64>)
    requires
        numbers.len() > 0,
    ensures
        dotted(numbers).len() > 0,
        number::is_digit(dotted(numbers)[0]),
        text::pieces(dotted(numbers), '.').map_values(|p: Seq<char>| part_value(p)) == numbers,
    decreases numbers.len(),
{
    let s = dotted(numbers);
    let d = number::decimal_nat(numbers[0] as nat);
    lemma_part_value(numbers[0]);
    let all = text::pieces(s, '.').map_values(|p: Seq<char>| part_value(p));
    if numbers.len() == 1 {
        text::lemma_first_at_shape(s, '.');
        assert(text::pieces(s, '.') =~= seq![s]);
        assert(all =~= numbers);
    } else {
        let rest = dotted(numbers.skip(1));
        lemma_dotted_numbers(numbers.skip(1));
        assert forall|j: int| 0 <= j < d.len() implies #[trigger] s[j] != '.' by {
            assert(s[j] == d[j]);
            assert(d.contains(d[j]));
        }
        assert(s[d.len() as int] == '.');
        text::lemma_first_at(s, '.', d.len() as int);
        assert(s.take(d.len() as int) =~= d);
        assert(s.skip(d.len() as int + 1) =~= rest);
        assert(text::pieces(s, '.') =~= seq![d] + text::pieces(rest, '.'));
        assert(all =~= seq![numbers[0]] + numbers.skip(1));
        assert(all =~= numbers);
    }
}

/// A version that is numbers with dots between them has exactly these numbers, whether or
/// not the letter of its tag stands before them.
pub proof fn law_versions_have_their_numbers(numbers: Seq<u64>)
    requires
        numbers.len() > 0,
    ensures
        version_numbers(dotted(numbers)) == numbers,
        version_numbers("v"@ + dotted(numbers)) == numbers,
{
    reveal_strlit("v");
    lemma_dotted_numbers(numbers);
    let s = dotted(numbers);
    let t = "v"@ + s;
    assert(text::drop_front(s, text::only('v')) == s);
    assert(t.skip(1) =~= s);
    assert(t[0] == 'v');
    assert(text::drop_front(t, text::only('v')) == s);
}

/// The first number in which two versions differ decides which is newer, however many digits
/// it has; a version that goes on where the other ends is newer.
pub proof fn law_first_difference_decides(latest: Seq<u64>, current: Seq<u64>, k: int)
    requires
        latest.len() > 0,
        current.len() > 0,
        0 <= k <= latest.len(),
        k <= current.len(),
        forall|j: int| 0 <= j < k ==> #[trigger] latest[j] == current[j],
        k < latest.len() && k < current.len() ==> latest[k] != current[k],
    ensures
        is_newer(dotted(latest), dotted(current)) == (if k < latest.len() && k < current.len() {
            latest[k] > current[k]
        } else {
            k < latest.len()
        }),
{
    law_versions_have_their_numbers(latest);
    law_versions_have_their_numbers(current);
    assert forall|j: int| 0 <= j < k implies #[trigger] current[j] == latest[j] by {}
    lemma_earlier_skip(current, latest, k);
}

/// A version of three numbers is newer than another exactly where its first number is
/// greater, or that is the same and its second is greater, or both are the same and its
/// third is greater.
pub proof fn law_versions_compare_as_numbers(
    a: u64,
    b: u64,
    c: u64,
    x: u64,
    y: u64,
    z: u64,
)
    ensures
        is_newer(
            number::decimal_nat(a as nat) + seq!['.'] + (number::decimal_nat(b as nat) + seq!['.']
                + number::decimal_nat(c as nat)),
            number::decimal_nat(x as nat) + seq!['.'] + (number::decimal_nat(y as nat) + seq!['.']
                + number::decimal_nat(z as nat)),
        ) == (a > x || (a == x && (b > y || (b == y && c > z)))),
{
    let l = seq![a, b, c];
    let m = seq![x, y, z];
    reveal_with_fuel(dotted, 4);
    assert(l.skip(1) =~= seq![b, c] && l.skip(1).skip(1) =~= seq![c]);
    assert(m.skip(1) =~= seq![y, z] && m.skip(1).skip(1) =~= seq![z]);
    if a != x {
        law_first_difference_decides(l, m, 0);
    } else if b != y {
        law_first_difference_decides(l, m, 1);
    } else if c != z {
        law_first_difference_decides(l, m, 2);
    } else {
        law_first_difference_decides(l, m, 3);
    }
}

/// Where there is a newer release, and only there, that is shown.
pub proof fn law_the_check_tells_of_newer_releases(latest: Seq<u64>, current: Seq<u64>, k: int)
    requires
        0 <= k < latest.len(),
        k < current.len(),
        forall|j: int| 0 <= j < k ==> #[trigger] latest[j] == current[j],
        latest[k] != current[k],
    ensures
        check_lines(dotted(latest), dotted(current)).len() == 3,
        check_lines(dotted(latest), dotted(current)).last() == (if latest[k] > current[k] {
            "update:  available"@
        } else {
            "update:  not needed"@
        }),
{
    law_first_difference_decides(latest, current, k);
}

} // verus!
