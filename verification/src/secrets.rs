//! Commands about secrets.

use crate::clock;
use crate::clock::local_offset;
use crate::commands;
use crate::crypto;
use crate::model;
use crate::model::{text_value, Payload, PayloadView, Secret, SecretView, Value, ValueView};
use crate::security;
use crate::security::encrypt_string;
use crate::state;
use crate::state::{StateView, ViaState};
use crate::table;
use crate::text;
use crate::text::pad;
use crate::util;
use crate::util::{format_ts_at, normalize_secret_name};
use vstd::prelude::*;
use vstd::utf8;

verus! {

/// The name under which a secret is kept, or what is said of it.
pub open spec fn name_outcome(st: StateView, name: Seq<char>) -> Result<Seq<char>, Seq<char>> {
    match st.mesh {
        None => Err("run `via init` before setting secrets"@),
        Some(_) => util::secret_name_outcome(name),
    }
}

/// The name under which a secret is kept, in a node that belongs to a mesh.
pub fn secret_name(state: &ViaState, name: &str) -> (r: Result<String, String>)
    ensures
        text::text_outcome(r) == name_outcome(state@, name@),
{
    if state.mesh().is_none() {
        return Err("run `via init` before setting secrets".to_owned());
    }
    normalize_secret_name(name)
}

/// A secret with a new value. One that was there keeps the time of its making.
pub open spec fn new_secret(
    st: StateView,
    name: Seq<char>,
    ciphertext: Seq<char>,
    now: i64,
) -> SecretView {
    SecretView {
        name,
        ciphertext,
        created_at: match table::find(st.secrets, name) {
            Some(s) => s.created_at,
            None => now,
        },
        updated_at: now,
    }
}

/// What is recorded of a secret that was set: its name alone.
pub open spec fn set_payload(name: Seq<char>) -> PayloadView {
    PayloadView::Object(seq![("name"@, ValueView::Text(name))])
}

/// Keeps a secret that was encrypted already. Returns what is shown.
pub fn keep_secret(state: &mut ViaState, name: String, ciphertext: String, now: i64) -> (r: String)
    requires
        old(state).wf(),
    ensures
        final(state).wf(),
        commands::was_recorded_and_saved(
            state::with_secret(old(state)@, new_secret(old(state)@, name@, ciphertext@, now)),
            final(state)@,
            "secret.set"@,
            set_payload(name@),
            now,
        ),
        r@ == "Set secret '"@ + name@ + "'."@,
{
    let created_at: i64 = match state.secret_by_name(name.as_str()) {
        Some(s) => s.created_at,
        None => now,
    };
    let shown = "Set secret '".to_owned().concat(name.as_str()).concat("'.");
    let fields: Vec<(String, Value)> = vec![text_value("name", name.as_str())];
    let payload = Payload::Object(fields);
    proof {
        assert(payload@ =~= set_payload(name@));
    }
    let secret = Secret { name, ciphertext, created_at, updated_at: now };
    state.upsert_secret(&secret);
    state.append_event("secret.set", payload, now);
    state.persist();
    shown
}

/// Encrypts a secret and keeps it. Returns what is shown. Nothing changes if the
/// secret cannot be kept. Whether random bytes for the encryption can be had is left
/// open.
pub fn secret_set(
    state: &mut ViaState,
    name: &str,
    value: &str,
    key: &Result<Vec<u8>, String>,
    now: i64,
) -> (r: Result<String, String>)
    requires
        old(state).wf(),
    ensures
        final(state).wf(),
        match name_outcome(old(state)@, name@) {
            Err(e) => r is Err && r->Err_0@ == e,
            Ok(n) => match text::bytes_outcome(*key) {
                Err(e) => r is Err && r->Err_0@ == e,
                Ok(k) => {
                    &&& k.len() != 32 ==> r is Err && r->Err_0@ == "Invalid Length"@
                    &&& utf8::encode_utf8(value@).len() > crypto::LONGEST_PLAINTEXT ==> r is Err
                    &&& r matches Ok(shown) ==> shown@ == "Set secret '"@ + n + "'."@ && exists|
                        ciphertext: Seq<char>,
                    |
                        security::decrypt_outcome(k, ciphertext) == Ok::<Seq<char>, Seq<char>>(
                            value@,
                        ) && commands::was_recorded_and_saved(
                            state::with_secret(
                                old(state)@,
                                #[trigger] new_secret(old(state)@, n, ciphertext, now),
                            ),
                            final(state)@,
                            "secret.set"@,
                            set_payload(n),
                            now,
                        )
                },
            },
        },
        r is Err ==> final(state)@ == old(state)@,
{
    let name = match secret_name(state, name) {
        Ok(n) => n,
        Err(e) => return Err(e),
    };
    match key {
        Err(e) => Err(e.clone()),
        Ok(k) => match encrypt_string(k, value) {
            Err(e) => Err(e),
            Ok(ciphertext) => {
                Ok(keep_secret(state, name, ciphertext, now))
            },
        },
    }
}

/// The name of a secret to delete, or what is said of it.
pub open spec fn delete_outcome(st: StateView, name: Seq<char>) -> Result<Seq<char>, Seq<char>> {
    match st.mesh {
        None => Err("run `via init` before deleting secrets"@),
        Some(_) => match util::secret_name_outcome(name) {
            Err(e) => Err(e),
            Ok(n) => if table::find(st.secrets, n) is None {
                Err("unknown secret '"@ + n + "'"@)
            } else {
                Ok(n)
            },
        },
    }
}

/// Deletes a secret. Returns what is shown.
pub fn secret_delete(state: &mut ViaState, name: &str, now: i64) -> (r: Result<String, String>)
    requires
        old(state).wf(),
    ensures
        final(state).wf(),
        match delete_outcome(old(state)@, name@) {
            Err(e) => final(state)@ == old(state)@ && text::text_outcome(r) == Err::<
                Seq<char>,
                Seq<char>,
            >(e),
            Ok(n) => commands::was_recorded_and_saved(
                state::without_secret(old(state)@, n),
                final(state)@,
                "secret.deleted"@,
                PayloadView::Plain(ValueView::Text(n)),
                now,
            ) && text::text_outcome(r) == Ok::<Seq<char>, Seq<char>>(
                "Deleted secret '"@ + n + "'."@,
            ),
        },
{
    if state.mesh().is_none() {
        return Err("run `via init` before deleting secrets".to_owned());
    }
    let name = match normalize_secret_name(name) {
        Ok(n) => n,
        Err(e) => return Err(e),
    };
    if state.secret_by_name(name.as_str()).is_none() {
        return Err("unknown secret '".to_owned().concat(name.as_str()).concat("'"));
    }
    state.delete_secret(name.as_str());
    state.append_event("secret.deleted", Payload::Plain(Value::Text(name.clone())), now);
    state.persist();
    Ok("Deleted secret '".to_owned().concat(name.as_str()).concat("'."))
}

/// A secret that was set is found with its value under the key, and one that was
/// deleted is found no more.
pub proof fn law_secret_commands_take_effect(
    st: StateView,
    name: Seq<char>,
    ciphertext: Seq<char>,
    now: i64,
)
    requires
        state::well_formed(st),
    ensures
        table::find(
            state::with_secret(st, new_secret(st, name, ciphertext, now)).secrets,
            name,
        ) == Some(new_secret(st, name, ciphertext, now)),
        table::find(state::without_secret(st, name).secrets, name) is None,
{
    table::lemma_find_put(st.secrets, new_secret(st, name, ciphertext, now), name);
    table::lemma_find_dropped(st.secrets, name, name);
}

/// What is recorded of secrets tells the same of any two values.
pub proof fn law_events_tell_no_values(
    st: StateView,
    id: Seq<char>,
    name: Seq<char>,
    c1: Seq<char>,
    c2: Seq<char>,
    now: i64,
)
    ensures
        state::recorded(
            state::with_secret(st, new_secret(st, name, c1, now)),
            id,
            "secret.set"@,
            set_payload(name),
            now,
        ).events == state::recorded(
            state::with_secret(st, new_secret(st, name, c2, now)),
            id,
            "secret.set"@,
            set_payload(name),
            now,
        ).events,
{
}

/// The line about a secret in a time zone `offset` seconds from UTC.
pub open spec fn secret_line(s: SecretView, offset: i32) -> Seq<char> {
    text::padded(s.name, 24) + " "@ + util::time_text(
        s.updated_at,
        clock::time_shown(s.updated_at, offset, util::DISPLAY_TIME_FORMAT@),
    )
}

/// The lines about secrets.
pub open spec fn secret_lines(secrets: Seq<SecretView>, offset: i32) -> Seq<Seq<char>> {
    if secrets.len() == 0 {
        seq!["No secrets."@]
    } else {
        seq![text::padded("NAME"@, 24) + " UPDATED"@] + secrets.map_values(
            |s: SecretView| secret_line(s, offset),
        )
    }
}

/// What is shown of the secrets in a time zone `offset` seconds from UTC: their
/// names, and when they were set.
pub fn secret_list_at(state: &ViaState, offset: i32) -> (r: Vec<String>)
    ensures
        text::texts(r@) == secret_lines(state@.secrets, offset),
{
    let secrets = state.secrets();
    let ghost all = state@.secrets;
    if secrets.len() == 0 {
        let lines = vec!["No secrets.".to_owned()];
        proof {
            assert(text::texts(lines@) =~= seq!["No secrets."@]);
        }
        return lines;
    }
    let mut lines = vec![pad("NAME", 24).concat(" UPDATED")];
    let ghost head = seq![text::padded("NAME"@, 24) + " UPDATED"@];
    let ghost rest = all.map_values(|s: SecretView| secret_line(s, offset));
    proof {
        assert(text::texts(lines@) =~= head + rest.take(0));
    }
    let mut i: usize = 0;
    while i < secrets.len()
        invariant
            i <= secrets.len(),
            all == model::shapes(secrets@),
            rest == all.map_values(|s: SecretView| secret_line(s, offset)),
            text::texts(lines@) == head + rest.take(i as int),
        decreases secrets.len() - i,
    {
        let secret = &secrets[i];
        let line = pad(secret.name.as_str(), 24).concat(" ").concat(
            format_ts_at(secret.updated_at, offset).as_str(),
        );
        let ghost before = lines@;
        lines.push(line);
        proof {
            assert(all[i as int] == secret@);
            assert(rest[i as int] == line@);
            assert(text::texts(lines@) =~= text::texts(before).push(line@));
            assert(rest.take(i + 1) =~= rest.take(i as int).push(line@));
            assert(head + rest.take(i + 1) =~= (head + rest.take(i as int)).push(line@));
        }
        i += 1;
    }
    proof {
        assert(rest.take(rest.len() as int) == rest);
    }
    lines
}

/// What is shown of the secrets in the machine's time zone.
pub fn secret_list(state: &ViaState) -> (r: Vec<String>)
    ensures
        exists|offset: i32|
            -93_600 < offset < 93_600 && text::texts(r@) == #[trigger] secret_lines(
                state@.secrets,
                offset,
            ),
{
    let offset: i32 = local_offset();
    secret_list_at(state, offset)
}

} // verus!
