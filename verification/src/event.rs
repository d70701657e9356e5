//! What may be kept of an event, and in which order events are shown.

use crate::model;
use crate::model::{Event, EventView, Payload, PayloadView, Value, ValueView};
use crate::order;
use crate::order::comes_before;
use crate::text;
use crate::text::{chars_of, same, starts_with};
use vstd::prelude::*;

verus! {

/// The string that the first member named `key` holds.
pub open spec fn text_member(f: Seq<(Seq<char>, ValueView)>, key: Seq<char>) -> Option<Seq<char>>
    decreases f.len(),
{
    if f.len() == 0 {
        None
    } else if f[0].0 == key {
        match f[0].1 {
            ValueView::Text(s) => Some(s),
            _ => None,
        }
    } else {
        text_member(f.skip(1), key)
    }
}

/// The members that are not named `key`.
pub open spec fn without(f: Seq<(Seq<char>, ValueView)>, key: Seq<char>) -> Seq<
    (Seq<char>, ValueView),
>
    decreases f.len(),
{
    if f.len() == 0 {
        Seq::empty()
    } else if f.last().0 == key {
        without(f.drop_last(), key)
    } else {
        without(f.drop_last(), key).push(f.last())
    }
}

/// Whether the command of an event's payload must not be kept.
pub open spec fn hides_command(kind: Seq<char>) -> bool {
    "service."@.is_prefix_of(kind) || kind == "node.exec"@
}

/// Whether a value is null, a boolean or a number: nothing that could be a command or
/// hold a secret.
pub open spec fn is_bare(v: ValueView) -> bool {
    match v {
        ValueView::Null => true,
        ValueView::Bool(_) => true,
        ValueView::Int(_) => true,
        ValueView::Text(_) => false,
        ValueView::Texts(_) => false,
        ValueView::Raw(s) => s.len() > 0 && (s[0] == '-' || '0' <= s[0] <= '9'),
    }
}

/// What may be kept of a single value: itself if it is bare, and else an object that
/// says nothing.
pub open spec fn only_bare(v: ValueView) -> PayloadView {
    if is_bare(v) {
        PayloadView::Plain(v)
    } else {
        PayloadView::Object(Seq::empty())
    }
}

/// What may be kept of the payload of an event about a secret that was set: its name,
/// if it tells one.
pub open spec fn only_name(payload: PayloadView) -> PayloadView {
    match payload {
        PayloadView::Object(f) => match text_member(f, "name"@) {
            Some(name) => PayloadView::Object(seq![("name"@, ValueView::Text(name))]),
            None => PayloadView::Object(Seq::empty()),
        },
        PayloadView::Plain(v) => only_bare(v),
    }
}

/// What may be kept of a payload that can hold a command: its members but the command.
pub open spec fn no_command(payload: PayloadView) -> PayloadView {
    match payload {
        PayloadView::Object(f) => PayloadView::Object(without(f, "command"@)),
        PayloadView::Plain(v) => only_bare(v),
    }
}

/// What may be kept of the payload of an event of this kind: of a secret that was
/// set only its name, and of a service or a command that was run not the command.
pub open spec fn kept_payload(kind: Seq<char>, payload: PayloadView) -> PayloadView {
    if kind == "secret.set"@ {
        only_name(payload)
    } else if hides_command(kind) {
        no_command(payload)
    } else {
        payload
    }
}

/// What may be kept of an event.
pub open spec fn sanitized(e: EventView) -> EventView {
    EventView { payload: kept_payload(e.kind, e.payload), ..e }
}

/// Several events, each as it may be kept.
pub open spec fn all_sanitized(s: Seq<EventView>) -> Seq<EventView> {
    s.map_values(|e: EventView| sanitized(e))
}

/// Whether `a` is shown before `b`: later events first, and among those of one
/// second the greater identifier.
pub open spec fn newer(a: EventView, b: EventView) -> bool {
    a.created_at > b.created_at || (a.created_at == b.created_at && order::precedes(b.id, a.id))
}

/// `s` with `e` before the first event that is older.
pub open spec fn placed(s: Seq<EventView>, e: EventView) -> Seq<EventView>
    decreases s.len(),
{
    if s.len() == 0 || newer(e, s[0]) {
        seq![e] + s
    } else {
        seq![s[0]] + placed(s.skip(1), e)
    }
}

/// The events of `s` in the order in which they are shown.
pub open spec fn newest_first(s: Seq<EventView>) -> Seq<EventView>
    decreases s.len(),
{
    if s.len() == 0 {
        Seq::empty()
    } else {
        placed(newest_first(s.drop_last()), s.last())
    }
}

/// The first `limit` of the events of `s`, in the order in which they are shown.
pub open spec fn newest(s: Seq<EventView>, limit: int) -> Seq<EventView> {
    if limit < s.len() {
        newest_first(s).take(limit)
    } else {
        newest_first(s)
    }
}

// ---------------------------------------------------------------------------
// Laws of sanitizing.

proof fn lemma_without_absent(f: Seq<(Seq<char>, ValueView)>, key: Seq<char>)
    ensures
        forall|i: int| 0 <= i < without(f, key).len() ==> (#[trigger] without(f, key)[i]).0 != key,
    decreases f.len(),
{
    if f.len() > 0 {
        let p = without(f.drop_last(), key);
        lemma_without_absent(f.drop_last(), key);
        assert forall|i: int| 0 <= i < without(f, key).len() implies (
        #[trigger] without(f, key)[i]).0 != key by {
            if i < p.len() {
                assert(without(f, key)[i] == p[i]);
            }
        }
    }
}

/// Where no member has a name, leaving that name out changes nothing.
pub proof fn lemma_without_none(f: Seq<(Seq<char>, ValueView)>, key: Seq<char>)
    requires
        forall|i: int| 0 <= i < f.len() ==> (#[trigger] f[i]).0 != key,
    ensures
        without(f, key) == f,
    decreases f.len(),
{
    if f.len() > 0 {
        assert(f.last() == f[f.len() - 1]);
        assert forall|i: int| 0 <= i < f.drop_last().len() implies (#[trigger] f.drop_last()[i]).0
            != key by {
            assert(f[i].0 != key);
        }
        lemma_without_none(f.drop_last(), key);
        assert(f.drop_last().push(f.last()) == f);
    }
}

proof fn lemma_kinds_apart(kind: Seq<char>)
    requires
        hides_command(kind),
    ensures
        kind != "secret.set"@,
{
    reveal_strlit("secret.set");
    reveal_strlit("service.");
    reveal_strlit("node.exec");
    assert("secret.set"@.len() == 10 && "node.exec"@.len() == 9);
    assert("service."@[2] == 'r' && "secret.set"@[2] == 'c');
    if "service."@.is_prefix_of(kind) {
        assert(kind.subrange(0, 8)[2] == "service."@[2]);
    }
}

/// What may be kept of an event may be kept of it again unchanged.
pub proof fn lemma_sanitized_idempotent(e: EventView)
    ensures
        sanitized(sanitized(e)) == sanitized(e),
{
    if e.kind == "secret.set"@ {
        if only_name(e.payload) is Object {
            let g = only_name(e.payload)->Object_0;
            if g.len() > 0 {
                assert(text_member(g, "name"@) == Some(g[0].1->Text_0));
            } else {
                assert(text_member(g, "name"@) is None);
            }
            assert(only_name(PayloadView::Object(g))->Object_0 =~= g);
        }
    } else if hides_command(e.kind) {
        if no_command(e.payload) is Object {
            let g = no_command(e.payload)->Object_0;
            if e.payload is Object {
                lemma_without_absent(e.payload->Object_0, "command"@);
            }
            lemma_without_none(g, "command"@);
        }
    }
}

/// No command is kept of a service's event or of a command that was run.
pub proof fn lemma_no_command_kept(e: EventView)
    requires
        hides_command(e.kind),
    ensures
        match sanitized(e).payload {
            PayloadView::Object(f) => forall|i: int|
                0 <= i < f.len() ==> (#[trigger] f[i]).0 != "command"@,
            PayloadView::Plain(v) => is_bare(v),
        },
{
    lemma_kinds_apart(e.kind);
    if e.payload is Object {
        lemma_without_absent(e.payload->Object_0, "command"@);
    }
}

/// Of a secret that was set nothing but its name is kept.
pub proof fn lemma_no_ciphertext_kept(e: EventView)
    requires
        e.kind == "secret.set"@,
    ensures
        match sanitized(e).payload {
            PayloadView::Object(f) => f.len() <= 1 && forall|i: int|
                0 <= i < f.len() ==> (#[trigger] f[i]).0 == "name"@,
            PayloadView::Plain(v) => is_bare(v),
        },
{
}

// ---------------------------------------------------------------------------
// Laws of the order.

proof fn lemma_placed_is(s: Seq<EventView>, e: EventView, i: int)
    requires
        0 <= i <= s.len(),
        forall|j: int| 0 <= j < i ==> !newer(e, #[trigger] s[j]),
        i == s.len() || newer(e, s[i]),
    ensures
        placed(s, e) == s.insert(i, e),
    decreases i,
{
    if i > 0 {
        assert(!newer(e, s[0]));
        assert forall|j: int| 0 <= j < i - 1 implies !newer(e, #[trigger] s.skip(1)[j]) by {
            assert(!newer(e, s[j + 1]));
        }
        lemma_placed_is(s.skip(1), e, i - 1);
        assert(seq![s[0]] + s.skip(1).insert(i - 1, e) == s.insert(i, e));
    } else {
        assert(seq![e] + s == s.insert(0, e));
    }
}

proof fn lemma_placed_index(s: Seq<EventView>, e: EventView) -> (i: int)
    ensures
        0 <= i <= s.len(),
        forall|j: int| 0 <= j < i ==> !newer(e, #[trigger] s[j]),
        i == s.len() || newer(e, s[i]),
        placed(s, e) == s.insert(i, e),
    decreases s.len(),
{
    if s.len() == 0 || newer(e, s[0]) {
        lemma_placed_is(s, e, 0);
        0
    } else {
        let k = lemma_placed_index(s.skip(1), e);
        assert forall|j: int| 0 <= j < k + 1 implies !newer(e, #[trigger] s[j]) by {
            if j > 0 {
                assert(!newer(e, s.skip(1)[j - 1]));
            }
        }
        if k + 1 < s.len() {
            assert(s.skip(1)[k] == s[k + 1]);
        }
        lemma_placed_is(s, e, k + 1);
        k + 1
    }
}

proof fn lemma_newer_transitive(a: EventView, b: EventView, c: EventView)
    requires
        newer(a, b),
        newer(b, c),
    ensures
        newer(a, c),
{
    if a.created_at == b.created_at && b.created_at == c.created_at {
        order::lemma_transitive(c.id, b.id, a.id);
    }
}

proof fn lemma_not_newer_transitive(a: EventView, b: EventView, c: EventView)
    requires
        !newer(b, a),
        !newer(c, b),
    ensures
        !newer(c, a),
{
    if newer(c, a) {
        order::lemma_total(a.id, b.id);
        order::lemma_total(b.id, c.id);
        order::lemma_total(a.id, c.id);
        if a.created_at == b.created_at && b.created_at == c.created_at {
            if a.id == b.id {
            } else if b.id == c.id {
            } else {
                order::lemma_transitive(c.id, b.id, a.id);
                order::lemma_asymmetric(a.id, c.id);
            }
        }
    }
}

/// Later events are shown first.
pub proof fn lemma_newest_first_sorted(s: Seq<EventView>)
    ensures
        newest_first(s).len() == s.len(),
        forall|i: int, j: int|
            0 <= i < j < newest_first(s).len() ==> !newer(
                #[trigger] newest_first(s)[j],
                #[trigger] newest_first(s)[i],
            ),
    decreases s.len(),
{
    if s.len() > 0 {
        let p = newest_first(s.drop_last());
        let e = s.last();
        lemma_newest_first_sorted(s.drop_last());
        let k = lemma_placed_index(p, e);
        let t = newest_first(s);
        assert forall|i: int, j: int| 0 <= i < j < t.len() implies !newer(
            #[trigger] t[j],
            #[trigger] t[i],
        ) by {
            let a = if i < k {
                i
            } else {
                i - 1
            };
            let b = if j < k {
                j
            } else {
                j - 1
            };
            if i != k && j != k {
                assert(!newer(p[b], p[a]));
            } else if j == k {
                assert(!newer(e, p[a]));
            } else {
                if b > k {
                    assert(!newer(p[b], p[k]));
                }
                order::lemma_irreflexive(p[k].id);
                if newer(p[k], e) {
                    lemma_newer_transitive(e, p[k], e);
                    order::lemma_irreflexive(e.id);
                }
                lemma_not_newer_transitive(e, p[k], p[b]);
            }
        }
    }
}

/// All events are shown, and nothing else.
pub proof fn lemma_newest_first_all(s: Seq<EventView>)
    ensures
        newest_first(s).to_multiset() == s.to_multiset(),
    decreases s.len(),
{
    broadcast use vstd::seq_lib::group_to_multiset_ensures;

    if s.len() > 0 {
        let p = newest_first(s.drop_last());
        lemma_newest_first_all(s.drop_last());
        let k = lemma_placed_index(p, s.last());
        assert(s == s.drop_last().push(s.last()));
    } else {
        assert(newest_first(s) == s);
    }
}

/// Whatever is shown newest first is among the events, and the other way round.
pub proof fn lemma_newest_first_member(events: Seq<EventView>, e: EventView)
    ensures
        newest_first(events).contains(e) == events.contains(e),
{
    broadcast use vstd::seq_lib::group_to_multiset_ensures;

    lemma_newest_first_all(events);
    assert(newest_first(events).contains(e)
        == newest_first(events).to_multiset().contains(e));
    assert(events.contains(e) == events.to_multiset().contains(e));
}

// ---------------------------------------------------------------------------
// Functions.

fn text_member_of(f: &Vec<(String, Value)>, key: &str) -> (r: Option<String>)
    ensures
        text::opt_text(r) == text_member(model::fields(f@), key@),
{
    let ghost all = model::fields(f@);
    let mut i: usize = 0;
    proof {
        assert(all.skip(0) == all);
    }
    while i < f.len()
        invariant
            i <= f.len(),
            all == model::fields(f@),
            text_member(all, key@) == text_member(all.skip(i as int), key@),
        decreases f.len() - i,
    {
        proof {
            assert(all.skip(i as int)[0] == (f@[i as int].0@, f@[i as int].1@));
            assert(all.skip(i as int).skip(1) == all.skip(i + 1));
        }
        if same(f[i].0.as_str(), key) {
            return match &f[i].1 {
                Value::Text(s) => Some(s.clone()),
                _ => None,
            };
        }
        i += 1;
    }
    None
}

fn without_member(f: &Vec<(String, Value)>, key: &str) -> (r: Vec<(String, Value)>)
    ensures
        model::fields(r@) == without(model::fields(f@), key@),
{
    let ghost all = model::fields(f@);
    let mut out: Vec<(String, Value)> = Vec::new();
    let mut i: usize = 0;
    proof {
        assert(model::fields(out@) == without(all.take(0), key@));
    }
    while i < f.len()
        invariant
            i <= f.len(),
            all == model::fields(f@),
            model::fields(out@) == without(all.take(i as int), key@),
        decreases f.len() - i,
    {
        proof {
            let next = all.take(i + 1);
            assert(next.drop_last() == all.take(i as int));
            assert(next.last() == (f@[i as int].0@, f@[i as int].1@));
        }
        if !same(f[i].0.as_str(), key) {
            let field = (f[i].0.clone(), f[i].1.clone());
            let ghost before = out@;
            out.push(field);
            proof {
                assert(model::fields(out@) == model::fields(before).push((field.0@, field.1@)));
            }
        }
        i += 1;
    }
    proof {
        assert(all.take(all.len() as int) == all);
    }
    out
}

fn no_fields() -> (r: Vec<(String, Value)>)
    ensures
        model::fields(r@) == Seq::<(Seq<char>, ValueView)>::empty(),
{
    let r: Vec<(String, Value)> = Vec::new();
    proof {
        assert(model::fields(r@) =~= Seq::empty());
    }
    r
}

/// What may be kept of a single value.
fn bare_only(v: &Value) -> (r: Payload)
    ensures
        r@ == only_bare(v@),
{
    let bare = match v {
        Value::Null => true,
        Value::Bool(_) => true,
        Value::Int(_) => true,
        Value::Text(_) => false,
        Value::Texts(_) => false,
        Value::Raw(s) => {
            let c = chars_of(s.as_str());
            c.len() > 0 && (c[0] == '-' || ('0' <= c[0] && c[0] <= '9'))
        },
    };
    if bare {
        Payload::Plain(v.clone())
    } else {
        Payload::Object(no_fields())
    }
}

/// What may be kept of the payload of an event about a secret that was set.
fn name_of(payload: &Payload) -> (r: Payload)
    ensures
        r@ == only_name(payload@),
{
    match payload {
        Payload::Object(f) => match text_member_of(f, "name") {
            Some(name) => {
                let v: Vec<(String, Value)> = vec![model::text_value("name", name.as_str())];
                proof {
                    assert(model::fields(v@) == seq![("name"@, ValueView::Text(name@))]);
                }
                Payload::Object(v)
            },
            None => Payload::Object(no_fields()),
        },
        Payload::Plain(v) => bare_only(v),
    }
}

/// What may be kept of an event.
pub fn sanitized_event(event: &Event) -> (r: Event)
    ensures
        r@ == sanitized(event@),
{
    let kind = event.kind.as_str();
    let payload = if same(kind, "secret.set") {
        name_of(&event.payload)
    } else if starts_with(kind, "service.") || same(kind, "node.exec") {
        match &event.payload {
            Payload::Object(f) => Payload::Object(without_member(f, "command")),
            Payload::Plain(v) => bare_only(v),
        }
    } else {
        event.payload.clone()
    };
    Event {
        id: event.id.clone(),
        kind: event.kind.clone(),
        payload,
        created_at: event.created_at,
    }
}

fn is_newer(a: &Event, b: &Event) -> (r: bool)
    ensures
        r == newer(a@, b@),
{
    a.created_at > b.created_at || (a.created_at == b.created_at && comes_before(
        b.id.as_str(),
        a.id.as_str(),
    ))
}

/// The events in the order in which they are shown.
pub fn sort_newest_first(events: &Vec<Event>) -> (r: Vec<Event>)
    ensures
        model::shapes(r@) == newest_first(model::shapes(events@)),
{
    let ghost all = model::shapes(events@);
    let mut out: Vec<Event> = Vec::new();
    let mut i: usize = 0;
    proof {
        assert(model::shapes(out@) == newest_first(all.take(0)));
    }
    while i < events.len()
        invariant
            i <= events.len(),
            all == model::shapes(events@),
            model::shapes(out@) == newest_first(all.take(i as int)),
        decreases events.len() - i,
    {
        let e = events[i].clone();
        let mut k: usize = 0;
        while k < out.len() && !is_newer(&e, &out[k])
            invariant
                k <= out.len(),
                forall|j: int| 0 <= j < k ==> !newer(e@, #[trigger] model::shapes(out@)[j]),
            decreases out.len() - k,
        {
            k += 1;
        }
        let ghost before = out@;
        proof {
            lemma_placed_is(model::shapes(out@), e@, k as int);
            let next = all.take(i + 1);
            assert(next.drop_last() == all.take(i as int));
            assert(next.last() == e@);
        }
        out.insert(k, e);
        proof {
            assert(model::shapes(out@) == model::shapes(before).insert(k as int, e@));
        }
        i += 1;
    }
    proof {
        assert(all.take(all.len() as int) == all);
    }
    out
}

} // verus!
