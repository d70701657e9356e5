//! Calls to the Lux store, and its answers.

use crate::encoding;
use crate::encoding::utf8_text;
use crate::model::Event;
use crate::number;
use crate::number::signed_text;
use crate::state::EVENT_TABLE;
use crate::text;
use crate::text::{contains, copy_texts, lowercase, same, split_char, starts_with, trim};
use crate::urls;
use vstd::prelude::*;

verus! {

/// A call to the store.
#[derive(Debug)]
pub struct StoreCall {
    pub name: String,
    pub args: Vec<String>,
}

#[verifier::ext_equal]
pub struct StoreCallView {
    pub name: Seq<char>,
    pub args: Seq<Seq<char>>,
}

impl View for StoreCall {
    type V = StoreCallView;

    open spec fn view(&self) -> StoreCallView {
        StoreCallView { name: self.name@, args: text::texts(self.args@) }
    }
}

/// A call that changes the store. An error that holds the word in `excused` does no
/// harm. If the call succeeds and `saved` is set, the store is then written to disk.
#[derive(Debug)]
pub struct StoreStep {
    pub call: StoreCall,
    pub excused: Option<String>,
    pub saved: bool,
}

#[verifier::ext_equal]
pub struct StoreStepView {
    pub call: StoreCallView,
    pub excused: Option<Seq<char>>,
    pub saved: bool,
}

impl View for StoreStep {
    type V = StoreStepView;

    open spec fn view(&self) -> StoreStepView {
        StoreStepView {
            call: self.call@,
            excused: text::opt_text(self.excused),
            saved: self.saved,
        }
    }
}

/// Several steps.
pub open spec fn store_steps(v: Seq<StoreStep>) -> Seq<StoreStepView> {
    v.map_values(|s: StoreStep| s@)
}

/// Whether the store is to be written to disk after a step, or what is said of the
/// step; `error` is what the store said of it, if it failed.
pub open spec fn step_outcome(step: StoreStepView, error: Option<Seq<char>>) -> Result<
    bool,
    Seq<char>,
> {
    match error {
        None => Ok(step.saved),
        Some(e) => match step.excused {
            Some(word) => if text::holds(text::lowered(e), word) {
                Ok(false)
            } else {
                Err(e)
            },
            None => Err(e),
        },
    }
}

/// Finds out what follows after a step.
pub fn check_stored(step: &StoreStep, error: Option<&str>) -> (r: Result<bool, String>)
    ensures
        match r {
            Ok(b) => step_outcome(step@, text::opt_str(error)) == Ok::<bool, Seq<char>>(b),
            Err(e) => step_outcome(step@, text::opt_str(error)) == Err::<bool, Seq<char>>(e@),
        },
{
    let error = match error {
        None => return Ok(step.saved),
        Some(e) => e,
    };
    if let Some(word) = &step.excused {
        if contains(lowercase(error).as_str(), word.as_str()) {
            return Ok(false);
        }
    }
    Err(error.to_owned())
}

/// What is to be done next where steps are taken one after the other.
#[derive(Debug)]
pub enum StoreNext {
    /// Make the call of the step with this number.
    Run(usize),
    /// Write the store to disk.
    Save,
    /// Nothing: all steps were taken, and none failed.
    Finished,
    /// Nothing: a step failed, of which this is said.
    Failed(String),
}

#[verifier::ext_equal]
pub enum StoreNextView {
    Run(int),
    Save,
    Finished,
    Failed(Seq<char>),
}

impl View for StoreNext {
    type V = StoreNextView;

    open spec fn view(&self) -> StoreNextView {
        match self {
            StoreNext::Run(i) => StoreNextView::Run(*i as int),
            StoreNext::Save => StoreNextView::Save,
            StoreNext::Finished => StoreNextView::Finished,
            StoreNext::Failed(e) => StoreNextView::Failed(e@),
        }
    }
}

/// What the store said of calls: nothing of those that succeeded.
pub open spec fn replies_view(v: Seq<Option<String>>) -> Seq<Option<Seq<char>>> {
    v.map_values(|o: Option<String>| text::opt_text(o))
}

/// What is to be done next, from the step with the number `i` on, where `replies` is
/// what the store said of the calls that were made since. A step that failed ends it
/// all, and so does writing to disk where it fails.
pub open spec fn next_from(steps: Seq<StoreStepView>, i: int, replies: Seq<Option<Seq<char>>>) ->
    StoreNextView
    decreases steps.len() - i,
{
    if i >= steps.len() {
        StoreNextView::Finished
    } else if replies.len() == 0 {
        StoreNextView::Run(i)
    } else {
        match step_outcome(steps[i], replies[0]) {
            Err(e) => StoreNextView::Failed(e),
            Ok(save) => if !save {
                next_from(steps, i + 1, replies.skip(1))
            } else if replies.len() == 1 {
                StoreNextView::Save
            } else {
                match replies[1] {
                    Some(e) => StoreNextView::Failed(e),
                    None => next_from(steps, i + 1, replies.skip(2)),
                }
            },
        }
    }
}

/// Finds out what is to be done next, where `replies` is what the store said of the
/// calls that were made so far.
pub fn next_stored(steps: &Vec<StoreStep>, replies: &Vec<Option<String>>) -> (r: StoreNext)
    ensures
        r@ == next_from(store_steps(steps@), 0, replies_view(replies@)),
{
    let ghost all = store_steps(steps@);
    let ghost said = replies_view(replies@);
    let mut i: usize = 0;
    let mut j: usize = 0;
    proof {
        assert(said.skip(0) == said);
    }
    while i < steps.len()
        invariant
            i <= steps.len(),
            j <= replies.len(),
            all == store_steps(steps@),
            said == replies_view(replies@),
            next_from(all, 0, said) == next_from(all, i as int, said.skip(j as int)),
        decreases steps.len() - i,
    {
        let ghost rest = said.skip(j as int);
        if j == replies.len() {
            return StoreNext::Run(i);
        }
        proof {
            assert(all[i as int] == steps@[i as int]@);
            assert(rest[0] == text::opt_text(replies@[j as int]));
            assert(rest.skip(1) =~= said.skip(j + 1));
        }
        let error: Option<&str> = match &replies[j] {
            Some(e) => Some(e.as_str()),
            None => None,
        };
        match check_stored(&steps[i], error) {
            Err(e) => return StoreNext::Failed(e),
            Ok(save) => {
                j += 1;
                if save {
                    if j == replies.len() {
                        return StoreNext::Save;
                    }
                    proof {
                        assert(rest[1] == text::opt_text(replies@[j as int]));
                        assert(rest.skip(2) =~= said.skip(j + 1));
                    }
                    if let Some(e) = &replies[j] {
                        return StoreNext::Failed(e.clone());
                    }
                    j += 1;
                }
            },
        }
        i += 1;
    }
    StoreNext::Finished
}

/// The calls that are made for steps that all succeed: each step's, and after those
/// that say so the writing to disk.
pub open spec fn calls_for(steps: Seq<StoreStepView>, n: int) -> nat
    decreases n,
{
    if n <= 0 {
        0
    } else if steps[n - 1].saved {
        calls_for(steps, n - 1) + 2
    } else {
        calls_for(steps, n - 1) + 1
    }
}

proof fn lemma_next_after(
    steps: Seq<StoreStepView>,
    n: int,
    replies: Seq<Option<Seq<char>>>,
)
    requires
        0 <= n <= steps.len(),
        calls_for(steps, n) <= replies.len(),
        forall|j: int| 0 <= j < calls_for(steps, n) ==> (#[trigger] replies[j]) is None,
    ensures
        next_from(steps, 0, replies) == next_from(
            steps,
            n,
            replies.skip(calls_for(steps, n) as int),
        ),
    decreases n,
{
    if n == 0 {
        assert(replies.skip(0) == replies);
    } else {
        let c = calls_for(steps, n - 1) as int;
        lemma_next_after(steps, n - 1, replies);
        let rest = replies.skip(c);
        assert(rest[0] == replies[c]);
        assert(rest.skip(1) =~= replies.skip(c + 1));
        if steps[n - 1].saved {
            assert(rest[1] == replies[c + 1]);
            assert(rest.skip(2) =~= replies.skip(c + 2));
        }
    }
}

/// Steps are taken one after the other while all is well. A step that fails ends it all,
/// whatever steps there are behind it.
pub proof fn law_store_steps_are_taken_in_order(
    steps: Seq<StoreStepView>,
    n: int,
    replies: Seq<Option<Seq<char>>>,
)
    requires
        0 <= n <= steps.len(),
        calls_for(steps, n) <= replies.len(),
        forall|j: int| 0 <= j < calls_for(steps, n) ==> (#[trigger] replies[j]) is None,
    ensures
        n == steps.len() ==> next_from(steps, 0, replies) == StoreNextView::Finished,
        n < steps.len() && replies.len() == calls_for(steps, n) ==> next_from(steps, 0, replies)
            == StoreNextView::Run(n),
        n < steps.len() && replies.len() > calls_for(steps, n) && step_outcome(
            steps[n],
            replies[calls_for(steps, n) as int],
        ) is Err ==> next_from(steps, 0, replies) == StoreNextView::Failed(
            step_outcome(steps[n], replies[calls_for(steps, n) as int])->Err_0,
        ),
{
    lemma_next_after(steps, n, replies);
    let c = calls_for(steps, n) as int;
    if c < replies.len() {
        assert(replies.skip(c)[0] == replies[c]);
    }
}

// ---------------------------------------------------------------------------
// Making calls.

/// Fields as the store takes them: each name before its value.
pub open spec fn flat(fields: Seq<(Seq<char>, Seq<char>)>) -> Seq<Seq<char>>
    decreases fields.len(),
{
    if fields.len() == 0 {
        Seq::empty()
    } else {
        flat(fields.drop_last()).push(fields.last().0).push(fields.last().1)
    }
}

/// The step that inserts a row, unless there is one like it.
pub open spec fn insertion(table: Seq<char>, fields: Seq<(Seq<char>, Seq<char>)>) -> StoreStepView {
    StoreStepView {
        call: StoreCallView { name: "TINSERT"@, args: seq![table] + flat(fields) },
        excused: Some("unique"@),
        saved: true,
    }
}

/// The step that sets fields in the rows whose field `key` is `value`.
pub open spec fn update(
    table: Seq<char>,
    sets: Seq<(Seq<char>, Seq<char>)>,
    key: Seq<char>,
    value: Seq<char>,
    saved: bool,
) -> StoreStepView {
    StoreStepView {
        call: StoreCallView {
            name: "TUPDATE"@,
            args: seq![table, "SET"@] + flat(sets) + seq!["WHERE"@, key, "="@, value],
        },
        excused: None,
        saved,
    }
}

/// The call that asks for the rows whose field `key` is `value`: all of them, or the
/// first.
pub open spec fn selection(
    table: Seq<char>,
    key: Seq<char>,
    value: Seq<char>,
    first: bool,
) -> StoreCallView {
    let all = seq!["*"@, "FROM"@, table, "WHERE"@, key, "="@, value];
    StoreCallView {
        name: "TSELECT"@,
        args: if first {
            all + seq!["LIMIT"@, "1"@]
        } else {
            all
        },
    }
}

/// A field.
pub fn pair(key: &str, value: &str) -> (r: (String, String))
    ensures
        r.0@ == key@,
        r.1@ == value@,
{
    (key.to_owned(), value.to_owned())
}

fn push_flat(args: &mut Vec<String>, fields: &Vec<(String, String)>)
    ensures
        text::texts(final(args)@) == text::texts(old(args)@) + flat(urls::pairs_view(fields@)),
{
    let ghost all = urls::pairs_view(fields@);
    let ghost start = text::texts(args@);
    let mut i: usize = 0;
    proof {
        assert(start + flat(all.take(0)) =~= start);
    }
    while i < fields.len()
        invariant
            i <= fields.len(),
            all == urls::pairs_view(fields@),
            text::texts(args@) == start + flat(all.take(i as int)),
        decreases fields.len() - i,
    {
        let key = fields[i].0.clone();
        let value = fields[i].1.clone();
        let ghost before = text::texts(args@);
        proof {
            let next = all.take(i + 1);
            assert(next.drop_last() == all.take(i as int));
            assert(next.last() == (key@, value@));
        }
        args.push(key);
        proof {
            assert(text::texts(args@) =~= before.push(key@));
        }
        let ghost middle = text::texts(args@);
        args.push(value);
        proof {
            assert(text::texts(args@) =~= middle.push(value@));
            assert(text::texts(args@) =~= start + flat(all.take(i + 1)));
        }
        i += 1;
    }
    proof {
        assert(all.take(all.len() as int) == all);
    }
}

/// Inserts a row, unless there is one like it.
pub fn insert_ignore(table: &str, fields: &Vec<(String, String)>) -> (r: StoreStep)
    ensures
        r@ == insertion(table@, urls::pairs_view(fields@)),
{
    let mut args = vec![table.to_owned()];
    proof {
        assert(text::texts(args@) =~= seq![table@]);
    }
    push_flat(&mut args, fields);
    StoreStep {
        call: StoreCall { name: "TINSERT".to_owned(), args },
        excused: Some("unique".to_owned()),
        saved: true,
    }
}

/// Sets fields in the rows whose field `key` is `value`.
pub fn set_where(
    table: &str,
    sets: &Vec<(String, String)>,
    key: &str,
    value: &str,
    saved: bool,
) -> (r: StoreStep)
    ensures
        r@ == update(table@, urls::pairs_view(sets@), key@, value@, saved),
{
    let mut args = vec![table.to_owned(), "SET".to_owned()];
    proof {
        assert(text::texts(args@) =~= seq![table@, "SET"@]);
    }
    push_flat(&mut args, sets);
    let ghost before = text::texts(args@);
    args.push("WHERE".to_owned());
    args.push(key.to_owned());
    args.push("=".to_owned());
    args.push(value.to_owned());
    proof {
        assert(text::texts(args@) =~= before + seq!["WHERE"@, key@, "="@, value@]);
    }
    StoreStep { call: StoreCall { name: "TUPDATE".to_owned(), args }, excused: None, saved }
}

/// Asks for the rows whose field `key` is `value`: all of them, or the first.
pub fn select_rows(table: &str, key: &str, value: &str, first: bool) -> (r: StoreCall)
    ensures
        r@ == selection(table@, key@, value@, first),
{
    let mut args = vec![
        "*".to_owned(),
        "FROM".to_owned(),
        table.to_owned(),
        "WHERE".to_owned(),
        key.to_owned(),
        "=".to_owned(),
        value.to_owned(),
    ];
    let ghost all = seq!["*"@, "FROM"@, table@, "WHERE"@, key@, "="@, value@];
    proof {
        assert(text::texts(args@) =~= all);
    }
    if first {
        args.push("LIMIT".to_owned());
        args.push("1".to_owned());
        proof {
            assert(text::texts(args@) =~= all + seq!["LIMIT"@, "1"@]);
        }
    }
    StoreCall { name: "TSELECT".to_owned(), args }
}

// ---------------------------------------------------------------------------
// Reading answers.

/// A value in a row that came from the store. What is none of the others is carried
/// as it is shown.
#[derive(Debug)]
pub enum Cell {
    Simple(String),
    Bulk(Vec<u8>),
    Int(i64),
    Other(String),
}

#[verifier::ext_equal]
pub enum CellView {
    Simple(Seq<char>),
    Bulk(Seq<u8>),
    Int(i64),
    Other(Seq<char>),
}

impl View for Cell {
    type V = CellView;

    open spec fn view(&self) -> CellView {
        match self {
            Cell::Simple(s) => CellView::Simple(s@),
            Cell::Bulk(b) => CellView::Bulk(b@),
            Cell::Int(n) => CellView::Int(*n),
            Cell::Other(s) => CellView::Other(s@),
        }
    }
}

/// The contents of cells.
pub open spec fn cells(v: Seq<Cell>) -> Seq<CellView> {
    v.map_values(|c: Cell| c@)
}

/// A row that came from the store. What is no list is carried as it is shown.
#[derive(Debug)]
pub enum RowReply {
    Cells(Vec<Cell>),
    Other(String),
}

#[verifier::ext_equal]
pub enum RowReplyView {
    Cells(Seq<CellView>),
    Other(Seq<char>),
}

impl View for RowReply {
    type V = RowReplyView;

    open spec fn view(&self) -> RowReplyView {
        match self {
            RowReply::Cells(v) => RowReplyView::Cells(cells(v@)),
            RowReply::Other(s) => RowReplyView::Other(s@),
        }
    }
}

/// The contents of rows.
pub open spec fn row_replies(v: Seq<RowReply>) -> Seq<RowReplyView> {
    v.map_values(|r: RowReply| r@)
}

/// Rows that came from the store. What is no list is carried as it is shown.
#[derive(Debug)]
pub enum TableReply {
    Rows(Vec<RowReply>),
    Other(String),
}

#[verifier::ext_equal]
pub enum TableReplyView {
    Rows(Seq<RowReplyView>),
    Other(Seq<char>),
}

impl View for TableReply {
    type V = TableReplyView;

    open spec fn view(&self) -> TableReplyView {
        match self {
            TableReply::Rows(v) => TableReplyView::Rows(row_replies(v@)),
            TableReply::Other(s) => TableReplyView::Other(s@),
        }
    }
}

/// A row: fields with their values. Of two fields with one name the later counts.
#[derive(Debug)]
pub struct StoreRow {
    pub fields: Vec<(String, String)>,
}

impl View for StoreRow {
    type V = Seq<(Seq<char>, Seq<char>)>;

    open spec fn view(&self) -> Seq<(Seq<char>, Seq<char>)> {
        urls::pairs_view(self.fields@)
    }
}

/// Several rows.
pub open spec fn rows_view(v: Seq<StoreRow>) -> Seq<Seq<(Seq<char>, Seq<char>)>> {
    v.map_values(|r: StoreRow| r@)
}

/// A row, if there is one.
pub open spec fn opt_row(o: Option<StoreRow>) -> Option<Seq<(Seq<char>, Seq<char>)>> {
    match o {
        Some(r) => Some(r@),
        None => None,
    }
}

/// The value of a field.
pub open spec fn field_of(row: Seq<(Seq<char>, Seq<char>)>, key: Seq<char>) -> Option<Seq<char>>
    decreases row.len(),
{
    if row.len() == 0 {
        None
    } else if row.last().0 == key {
        Some(row.last().1)
    } else {
        field_of(row.drop_last(), key)
    }
}

/// A row after some of its fields were set.
pub open spec fn row_after(
    row: Seq<(Seq<char>, Seq<char>)>,
    sets: Seq<(Seq<char>, Seq<char>)>,
) -> Seq<(Seq<char>, Seq<char>)> {
    row + sets
}

/// A field that was set has its new value, and the others keep theirs.
pub proof fn lemma_field_after(
    row: Seq<(Seq<char>, Seq<char>)>,
    sets: Seq<(Seq<char>, Seq<char>)>,
    key: Seq<char>,
)
    ensures
        field_of(row_after(row, sets), key) == (match field_of(sets, key) {
            Some(v) => Some(v),
            None => field_of(row, key),
        }),
    decreases sets.len(),
{
    if sets.len() == 0 {
        assert(row + sets == row);
    } else {
        assert((row + sets).drop_last() == row + sets.drop_last());
        lemma_field_after(row, sets.drop_last(), key);
    }
}

/// The text of a cell, or what is said of it.
pub open spec fn cell_text(c: CellView) -> Result<Seq<char>, Seq<char>> {
    match c {
        CellView::Simple(s) => Ok(s),
        CellView::Bulk(b) => encoding::text_in(b),
        CellView::Int(n) => Ok(number::decimal(n as int)),
        CellView::Other(s) => Err("unexpected Lux table field value: "@ + s),
    }
}

/// The text of a cell.
pub fn embedded_to_string(c: Cell) -> (r: Result<String, String>)
    ensures
        text::text_outcome(r) == cell_text(c@),
{
    match c {
        Cell::Simple(s) => Ok(s),
        Cell::Bulk(b) => utf8_text(b),
        Cell::Int(n) => Ok(signed_text(n)),
        Cell::Other(s) => Err(
            "unexpected Lux table field value: ".to_owned().concat(s.as_str()),
        ),
    }
}

/// The first `n` fields of a row whose names and values stand in turn, or what is
/// said of the first cell that is no text.
pub open spec fn fields_in(v: Seq<CellView>, n: nat) -> Result<
    Seq<(Seq<char>, Seq<char>)>,
    Seq<char>,
>
    decreases n,
{
    if n == 0 {
        Ok(Seq::empty())
    } else {
        match fields_in(v, (n - 1) as nat) {
            Err(e) => Err(e),
            Ok(row) => match cell_text(v[2 * n - 2]) {
                Err(e) => Err(e),
                Ok(key) => match cell_text(v[2 * n - 1]) {
                    Err(e) => Err(e),
                    Ok(value) => Ok(row.push((key, value))),
                },
            },
        }
    }
}

/// A row, or what is said of it. A name without a value at the end is left out.
pub open spec fn row_outcome(r: RowReplyView) -> Result<Seq<(Seq<char>, Seq<char>)>, Seq<char>> {
    match r {
        RowReplyView::Cells(v) => fields_in(v, v.len() / 2),
        RowReplyView::Other(s) => Err("unexpected Lux table row: "@ + s),
    }
}

proof fn lemma_first_bad_field(v: Seq<CellView>, n: nat, m: nat)
    requires
        n <= m,
        fields_in(v, n) is Err,
    ensures
        fields_in(v, m) == fields_in(v, n),
    decreases m,
{
    if n < m {
        lemma_first_bad_field(v, n, (m - 1) as nat);
    }
}

/// Reads a row.
pub fn row_to_map(reply: RowReply) -> (r: Result<StoreRow, String>)
    ensures
        match r {
            Ok(row) => row_outcome(reply@) == Ok::<Seq<(Seq<char>, Seq<char>)>, Seq<char>>(row@),
            Err(e) => row_outcome(reply@) == Err::<Seq<(Seq<char>, Seq<char>)>, Seq<char>>(e@),
        },
{
    let mut rest: Vec<Cell> = match reply {
        RowReply::Cells(v) => v,
        RowReply::Other(s) => return Err(
            "unexpected Lux table row: ".to_owned().concat(s.as_str()),
        ),
    };
    let ghost all = cells(rest@);
    let total = rest.len() / 2;
    let mut fields: Vec<(String, String)> = Vec::new();
    let mut n: usize = 0;
    proof {
        assert(urls::pairs_view(fields@) =~= Seq::empty());
        assert(all.skip(0) =~= all);
        assert(total == all.len() / 2);
    }
    while n < total
        invariant
            n <= total,
            total == all.len() / 2,
            2 * total <= all.len(),
            all == cells_of(reply),
            reply is Cells,
            cells(rest@) == all.skip(2 * n),
            fields_in(all, n as nat) == Ok::<Seq<(Seq<char>, Seq<char>)>, Seq<char>>(
                urls::pairs_view(fields@),
            ),
        decreases total - n,
    {
        let ghost left = rest@;
        proof {
            assert(cells(left).len() == left.len());
            assert(all.skip(2 * n).len() == all.len() - 2 * n);
            assert(cells(left)[0] == all[2 * n]);
            assert(cells(left)[1] == all[2 * n + 1]);
        }
        let key = rest.remove(0);
        let value = rest.remove(0);
        proof {
            assert(key@ == all[2 * n]);
            assert(value@ == all[2 * n + 1]);
            assert(rest@ =~= left.skip(2));
            assert(cells(rest@) =~= cells(left).skip(2));
            assert(all.skip(2 * n).skip(2) =~= all.skip(2 * (n + 1)));
        }
        let key = match embedded_to_string(key) {
            Ok(s) => s,
            Err(e) => {
                proof {
                    lemma_first_bad_field(all, (n + 1) as nat, total as nat);
                }
                return Err(e);
            },
        };
        let value = match embedded_to_string(value) {
            Ok(s) => s,
            Err(e) => {
                proof {
                    lemma_first_bad_field(all, (n + 1) as nat, total as nat);
                }
                return Err(e);
            },
        };
        let ghost before = urls::pairs_view(fields@);
        let field = (key, value);
        fields.push(field);
        proof {
            assert(urls::pairs_view(fields@) =~= before.push((field.0@, field.1@)));
        }
        n += 1;
    }
    Ok(StoreRow { fields })
}

spec fn cells_of(reply: RowReply) -> Seq<CellView> {
    match reply@ {
        RowReplyView::Cells(v) => v,
        RowReplyView::Other(_) => Seq::empty(),
    }
}

/// The rows, or what is said of the first that cannot be read.
pub open spec fn rows_in(v: Seq<RowReplyView>) -> Result<
    Seq<Seq<(Seq<char>, Seq<char>)>>,
    Seq<char>,
>
    decreases v.len(),
{
    if v.len() == 0 {
        Ok(Seq::empty())
    } else {
        match row_outcome(v[0]) {
            Err(e) => Err(e),
            Ok(row) => match rows_in(v.skip(1)) {
                Err(e) => Err(e),
                Ok(rest) => Ok(seq![row] + rest),
            },
        }
    }
}

/// The rows of an answer, or what is said of it.
pub open spec fn rows_outcome(reply: TableReplyView) -> Result<
    Seq<Seq<(Seq<char>, Seq<char>)>>,
    Seq<char>,
> {
    match reply {
        TableReplyView::Rows(v) => rows_in(v),
        TableReplyView::Other(s) => Err("unexpected Lux table response: "@ + s),
    }
}

/// Reads the rows of an answer.
pub fn rows_of(reply: TableReply) -> (r: Result<Vec<StoreRow>, String>)
    ensures
        match r {
            Ok(rows) => rows_outcome(reply@) == Ok::<
                Seq<Seq<(Seq<char>, Seq<char>)>>,
                Seq<char>,
            >(rows_view(rows@)),
            Err(e) => rows_outcome(reply@) == Err::<
                Seq<Seq<(Seq<char>, Seq<char>)>>,
                Seq<char>,
            >(e@),
        },
{
    match reply {
        TableReply::Rows(v) => read_rows(v),
        TableReply::Other(s) => Err(
            "unexpected Lux table response: ".to_owned().concat(s.as_str()),
        ),
    }
}

fn read_rows(v: Vec<RowReply>) -> (r: Result<Vec<StoreRow>, String>)
    ensures
        match r {
            Ok(rows) => rows_in(row_replies(v@)) == Ok::<
                Seq<Seq<(Seq<char>, Seq<char>)>>,
                Seq<char>,
            >(rows_view(rows@)),
            Err(e) => rows_in(row_replies(v@)) == Err::<
                Seq<Seq<(Seq<char>, Seq<char>)>>,
                Seq<char>,
            >(e@),
        },
{
    let ghost want = rows_in(row_replies(v@));
    let mut rest = v;
    let mut rows: Vec<StoreRow> = Vec::new();
    proof {
        assert(rows_view(rows@) =~= Seq::empty());
        if want is Ok {
            assert(rows_view(rows@) + want->Ok_0 =~= want->Ok_0);
        }
    }
    while rest.len() > 0
        invariant
            want == rows_in(row_replies(v@)),
            match rows_in(row_replies(rest@)) {
                Ok(tail) => want == Ok::<Seq<Seq<(Seq<char>, Seq<char>)>>, Seq<char>>(
                    rows_view(rows@) + tail,
                ),
                Err(e) => want == Err::<Seq<Seq<(Seq<char>, Seq<char>)>>, Seq<char>>(e),
            },
        decreases rest.len(),
    {
        let ghost left = row_replies(rest@);
        let first = rest.remove(0);
        proof {
            assert(left[0] == first@);
            assert(row_replies(rest@) =~= left.skip(1));
        }
        match row_to_map(first) {
            Err(e) => return Err(e),
            Ok(row) => {
                let ghost before = rows_view(rows@);
                rows.push(row);
                proof {
                    assert(rows_view(rows@) =~= before.push(row@));
                    if rows_in(left.skip(1)) is Ok {
                        let tail = rows_in(left.skip(1))->Ok_0;
                        assert(before + (seq![row@] + tail) =~= rows_view(rows@) + tail);
                    }
                }
            },
        }
    }
    proof {
        assert(row_replies(rest@) =~= Seq::empty());
        assert(rows_view(rows@) + Seq::empty() =~= rows_view(rows@));
    }
    Ok(rows)
}

/// The first of some rows.
pub fn first_row(rows: Vec<StoreRow>) -> (r: Option<StoreRow>)
    ensures
        opt_row(r) == (if rows@.len() > 0 {
            Some(rows_view(rows@)[0])
        } else {
            None
        }),
{
    let mut rows = rows;
    if rows.len() > 0 {
        Some(rows.remove(0))
    } else {
        None
    }
}

/// The value of a field.
pub fn field<'a>(row: &'a StoreRow, key: &str) -> (r: Option<&'a str>)
    ensures
        text::opt_str(r) == field_of(row@, key@),
{
    let ghost all = row@;
    let mut i: usize = row.fields.len();
    proof {
        assert(all.take(all.len() as int) == all);
    }
    while i > 0
        invariant
            i <= row.fields.len(),
            all == row@,
            field_of(all, key@) == field_of(all.take(i as int), key@),
        decreases i,
    {
        i -= 1;
        proof {
            let here = all.take(i + 1);
            assert(here.last() == (row.fields@[i as int].0@, row.fields@[i as int].1@));
            assert(here.drop_last() == all.take(i as int));
        }
        if same(row.fields[i].0.as_str(), key) {
            return Some(row.fields[i].1.as_str());
        }
    }
    None
}

/// Demands that a field of a token's row has a value.
pub fn require_field(row: &StoreRow, key: &str, expected: &str) -> (r: Result<(), String>)
    ensures
        text::unit_outcome(r) == (if field_of(row@, key@) == Some(expected@) {
            Ok::<(), Seq<char>>(())
        } else {
            Err("invalid hub token"@)
        }),
{
    match field(row, key) {
        Some(actual) => if same(actual, expected) {
            Ok(())
        } else {
            Err("invalid hub token".to_owned())
        },
        None => Err("invalid hub token".to_owned()),
    }
}

// ---------------------------------------------------------------------------
// Setting up tables.

/// The strings in a JSON list, as `serde_json` reads them, or what it says of the
/// text.
pub uninterp spec fn json_texts(line: Seq<char>) -> Result<Seq<Seq<char>>, Seq<char>>;

/// The contents of texts, or what was said.
pub open spec fn texts_outcome(r: Result<Vec<String>, String>) -> Result<
    Seq<Seq<char>>,
    Seq<char>,
> {
    match r {
        Ok(v) => Ok(text::texts(v@)),
        Err(e) => Err(e@),
    }
}

/// Calls `serde_json::from_str` for a list of strings. An error is turned into what
/// it says.
#[verifier::external_body]
pub(crate) fn read_json_texts(line: &str) -> (r: Result<Vec<String>, String>)
    ensures
        texts_outcome(r) == json_texts(line@),
{
    serde_json::from_str(line).map_err(|error| error.to_string())
}

/// Whether a line of a migration, without the white space at its ends, holds a
/// command: an empty line and a comment do not.
pub open spec fn is_command(line: Seq<char>) -> bool {
    line.len() > 0 && !("#"@.is_prefix_of(line)) && !("--"@.is_prefix_of(line))
}

/// The lines of a migration that hold commands.
pub open spec fn command_lines(lines: Seq<Seq<char>>) -> Seq<Seq<char>>
    decreases lines.len(),
{
    if lines.len() == 0 {
        Seq::empty()
    } else {
        let before = command_lines(lines.drop_last());
        let line = text::trimmed(lines.last());
        if is_command(line) {
            before.push(line)
        } else {
            before
        }
    }
}

/// The commands on some lines, or what is said of the first that is none.
pub open spec fn commands_in(lines: Seq<Seq<char>>) -> Result<Seq<Seq<Seq<char>>>, Seq<char>>
    decreases lines.len(),
{
    if lines.len() == 0 {
        Ok(Seq::empty())
    } else {
        match commands_in(lines.drop_last()) {
            Err(e) => Err(e),
            Ok(before) => match json_texts(lines.last()) {
                Err(e) => Err(e),
                Ok(words) => Ok(before.push(words)),
            },
        }
    }
}

proof fn lemma_first_bad_line(lines: Seq<Seq<char>>, n: int)
    requires
        0 <= n <= lines.len(),
        commands_in(lines.take(n)) is Err,
    ensures
        commands_in(lines) == commands_in(lines.take(n)),
    decreases lines.len() - n,
{
    if n == lines.len() {
        assert(lines.take(n) == lines);
    } else {
        assert(lines.take(n + 1).drop_last() == lines.take(n));
        lemma_first_bad_line(lines, n + 1);
    }
}

/// The contents of commands.
pub open spec fn words_view(v: Seq<Vec<String>>) -> Seq<Seq<Seq<char>>> {
    v.map_values(|w: Vec<String>| text::texts(w@))
}

/// The lines of a migration that hold commands.
pub fn migration_lines(raw: &str) -> (r: Vec<String>)
    ensures
        text::texts(r@) == command_lines(text::pieces(raw@, '\n')),
{
    let lines = split_char(raw, '\n');
    let ghost all = text::texts(lines@);
    let mut out: Vec<String> = Vec::new();
    let mut i: usize = 0;
    proof {
        assert(text::texts(out@) =~= command_lines(all.take(0)));
    }
    while i < lines.len()
        invariant
            i <= lines.len(),
            all == text::texts(lines@),
            text::texts(out@) == command_lines(all.take(i as int)),
        decreases lines.len() - i,
    {
        let line = trim(lines[i].as_str());
        proof {
            let next = all.take(i + 1);
            assert(next.drop_last() == all.take(i as int));
            assert(next.last() == lines@[i as int]@);
        }
        if !line.is_empty() && !starts_with(line, "#") && !starts_with(line, "--") {
            let ghost before = text::texts(out@);
            out.push(line.to_owned());
            proof {
                assert(text::texts(out@) =~= before.push(line@));
            }
        }
        i += 1;
    }
    proof {
        assert(all.take(all.len() as int) == all);
    }
    out
}

/// The commands of a migration.
pub fn parse_migration(raw: &str) -> (r: Result<Vec<Vec<String>>, String>)
    ensures
        match r {
            Ok(v) => commands_in(command_lines(text::pieces(raw@, '\n'))) == Ok::<
                Seq<Seq<Seq<char>>>,
                Seq<char>,
            >(words_view(v@)),
            Err(e) => commands_in(command_lines(text::pieces(raw@, '\n'))) == Err::<
                Seq<Seq<Seq<char>>>,
                Seq<char>,
            >(e@),
        },
{
    let lines = migration_lines(raw);
    let ghost all = text::texts(lines@);
    let mut out: Vec<Vec<String>> = Vec::new();
    let mut i: usize = 0;
    proof {
        assert(words_view(out@) =~= Seq::empty());
        assert(all.take(0) =~= Seq::empty());
    }
    while i < lines.len()
        invariant
            i <= lines.len(),
            all == text::texts(lines@),
            all == command_lines(text::pieces(raw@, '\n')),
            commands_in(all.take(i as int)) == Ok::<Seq<Seq<Seq<char>>>, Seq<char>>(
                words_view(out@),
            ),
        decreases lines.len() - i,
    {
        proof {
            let next = all.take(i + 1);
            assert(next.drop_last() == all.take(i as int));
            assert(next.last() == lines@[i as int]@);
        }
        match read_json_texts(lines[i].as_str()) {
            Err(e) => {
                proof {
                    lemma_first_bad_line(all, i + 1);
                }
                return Err(e);
            },
            Ok(words) => {
                let ghost before = words_view(out@);
                out.push(words);
                proof {
                    assert(words_view(out@) =~= before.push(text::texts(words@)));
                }
            },
        }
        i += 1;
    }
    proof {
        assert(all.take(all.len() as int) == all);
    }
    Ok(out)
}

/// The step of a migration for one of its commands, or what is said of a command
/// without words.
pub open spec fn migration_outcome(words: Seq<Seq<char>>) -> Result<StoreStepView, Seq<char>> {
    if words.len() == 0 {
        Err("empty migration command"@)
    } else {
        Ok(
            StoreStepView {
                call: StoreCallView { name: words[0], args: words.skip(1) },
                excused: Some("exists"@),
                saved: false,
            },
        )
    }
}

/// The step of a migration for one of its commands.
pub fn migration_step(command: Vec<String>) -> (r: Result<StoreStep, String>)
    ensures
        match migration_outcome(text::texts(command@)) {
            Ok(step) => r is Ok && r->Ok_0@ == step,
            Err(e) => r is Err && r->Err_0@ == e,
        },
{
    if command.len() == 0 {
        return Err("empty migration command".to_owned());
    }
    let ghost all = text::texts(command@);
    let mut args = command;
    let name = args.remove(0);
    proof {
        assert(text::texts(args@) =~= all.skip(1));
    }
    Ok(
        StoreStep {
            call: StoreCall { name, args },
            excused: Some("exists".to_owned()),
            saved: false,
        },
    )
}

/// The steps of a migration up to the first command that is none, and what is said of
/// that one once they were taken.
#[derive(Debug)]
pub struct MigrationPlan {
    pub steps: Vec<StoreStep>,
    pub failed: Option<String>,
}

/// The steps of a migration up to the first command that is none, and what is said of
/// that one.
pub open spec fn planned(commands: Seq<Seq<Seq<char>>>) -> (Seq<StoreStepView>, Option<Seq<char>>)
    decreases commands.len(),
{
    if commands.len() == 0 {
        (Seq::empty(), None)
    } else {
        match migration_outcome(commands[0]) {
            Err(e) => (Seq::empty(), Some(e)),
            Ok(step) => (
                seq![step] + planned(commands.skip(1)).0,
                planned(commands.skip(1)).1,
            ),
        }
    }
}

/// Finds out how a migration is done.
pub fn migration_plan(commands: &Vec<Vec<String>>) -> (r: MigrationPlan)
    ensures
        store_steps(r.steps@) == planned(words_view(commands@)).0,
        text::opt_text(r.failed) == planned(words_view(commands@)).1,
{
    let ghost all = words_view(commands@);
    let mut steps: Vec<StoreStep> = Vec::new();
    let mut i: usize = 0;
    proof {
        assert(all.skip(0) == all);
        assert(store_steps(steps@) + planned(all).0 =~= planned(all).0);
    }
    while i < commands.len()
        invariant
            i <= commands.len(),
            all == words_view(commands@),
            store_steps(steps@) + planned(all.skip(i as int)).0 == planned(all).0,
            planned(all.skip(i as int)).1 == planned(all).1,
        decreases commands.len() - i,
    {
        proof {
            assert(all.skip(i as int)[0] == text::texts(commands@[i as int]@));
            assert(all.skip(i as int).skip(1) =~= all.skip(i + 1));
        }
        match migration_step(copy_texts(&commands[i])) {
            Err(e) => {
                proof {
                    assert(store_steps(steps@) + Seq::empty() =~= store_steps(steps@));
                }
                return MigrationPlan { steps, failed: Some(e) };
            },
            Ok(step) => {
                let ghost before = steps@;
                let ghost view = step@;
                steps.push(step);
                proof {
                    let tail = planned(all.skip(i + 1)).0;
                    assert(store_steps(steps@) =~= store_steps(before).push(view));
                    assert(store_steps(before) + (seq![view] + tail) =~= store_steps(steps@)
                        + tail);
                }
            },
        }
        i += 1;
    }
    proof {
        assert(all.skip(all.len() as int) =~= Seq::empty());
        assert(store_steps(steps@) + Seq::empty() =~= store_steps(steps@));
    }
    MigrationPlan { steps, failed: None }
}

/// The tables that a hub needs.
pub fn hub_tables() -> (r: Vec<String>)
    ensures
        text::texts(r@) == seq![
            "meshes"@,
            "nodes"@,
            "tokens"@,
            "sessions"@,
            "cmds"@,
            "events"@,
            "audit"@,
        ],
{
    let v = vec![
        "meshes".to_owned(),
        "nodes".to_owned(),
        "tokens".to_owned(),
        "sessions".to_owned(),
        "cmds".to_owned(),
        "events".to_owned(),
        "audit".to_owned(),
    ];
    proof {
        assert(text::texts(v@) =~= seq![
            "meshes"@,
            "nodes"@,
            "tokens"@,
            "sessions"@,
            "cmds"@,
            "events"@,
            "audit"@,
        ]);
    }
    v
}

/// Asks whether there is a table.
pub fn ask_table(table: &str) -> (r: StoreCall)
    ensures
        r@ == (StoreCallView { name: "TSCHEMA"@, args: seq![table@] }),
{
    let args = vec![table.to_owned()];
    proof {
        assert(text::texts(args@) =~= seq![table@]);
    }
    StoreCall { name: "TSCHEMA".to_owned(), args }
}

/// What is said of a store in which these tables are missing.
pub fn check_schema(missing: &Vec<String>) -> (r: Result<(), String>)
    ensures
        text::unit_outcome(r) == (if missing@.len() == 0 {
            Ok::<(), Seq<char>>(())
        } else {
            Err(
                "hub schema is missing tables: "@ + text::joined(
                    text::texts(missing@),
                    ", "@,
                ) + "; run `via hub migrate` or start with `via hub start --migrate`"@,
            )
        }),
{
    if missing.len() == 0 {
        return Ok(());
    }
    Err(
        "hub schema is missing tables: ".to_owned().concat(
            text::join(missing, ", ").as_str(),
        ).concat("; run `via hub migrate` or start with `via hub start --migrate`"),
    )
}

/// Writes the store to disk.
pub fn save_call() -> (r: StoreCall)
    ensures
        r@ == (StoreCallView { name: "SAVE"@, args: Seq::empty() }),
{
    let args: Vec<String> = Vec::new();
    proof {
        assert(text::texts(args@) =~= Seq::empty());
    }
    StoreCall { name: "SAVE".to_owned(), args }
}

// ---------------------------------------------------------------------------
// The table of events.

/// Makes the table of events, unless there is one.
pub fn ensure_tables() -> (r: StoreStep)
    ensures
        r@ == (StoreStepView {
            call: StoreCallView {
                name: "TCREATE"@,
                args: seq![
                    EVENT_TABLE@,
                    "event_id STR UNIQUE,"@,
                    "kind STR,"@,
                    "created_at INT,"@,
                    "payload STR"@,
                ],
            },
            excused: Some("exists"@),
            saved: false,
        }),
{
    let args = vec![
        EVENT_TABLE.to_owned(),
        "event_id STR UNIQUE,".to_owned(),
        "kind STR,".to_owned(),
        "created_at INT,".to_owned(),
        "payload STR".to_owned(),
    ];
    proof {
        assert(text::texts(args@) =~= seq![
            EVENT_TABLE@,
            "event_id STR UNIQUE,"@,
            "kind STR,"@,
            "created_at INT,"@,
            "payload STR"@,
        ]);
    }
    StoreStep {
        call: StoreCall { name: "TCREATE".to_owned(), args },
        excused: Some("exists".to_owned()),
        saved: false,
    }
}

/// Inserts an event into the table of events, unless it is there; `payload` is the
/// text of its payload.
pub fn insert_event_table(event: &Event, payload: &str) -> (r: StoreStep)
    ensures
        r@ == (StoreStepView {
            saved: false,
            ..insertion(
                EVENT_TABLE@,
                seq![
                    ("event_id"@, event@.id),
                    ("kind"@, event@.kind),
                    ("created_at"@, number::decimal(event@.created_at as int)),
                    ("payload"@, payload@),
                ],
            )
        }),
{
    let created_at = signed_text(event.created_at);
    let fields = vec![
        pair("event_id", event.id.as_str()),
        pair("kind", event.kind.as_str()),
        pair("created_at", created_at.as_str()),
        pair("payload", payload),
    ];
    proof {
        assert(urls::pairs_view(fields@) =~= seq![
            ("event_id"@, event@.id),
            ("kind"@, event@.kind),
            ("created_at"@, number::decimal(event@.created_at as int)),
            ("payload"@, payload@),
        ]);
    }
    let mut step = insert_ignore(EVENT_TABLE, &fields);
    step.saved = false;
    step
}

/// Deletes an event from the table of events, if it is there.
pub fn delete_event_table_row(event_id: &str) -> (r: StoreStep)
    ensures
        r@ == (StoreStepView {
            call: StoreCallView {
                name: "TDELETE"@,
                args: seq!["FROM"@, EVENT_TABLE@, "WHERE"@, "event_id"@, "="@, event_id@],
            },
            excused: Some("not found"@),
            saved: false,
        }),
{
    let args = vec![
        "FROM".to_owned(),
        EVENT_TABLE.to_owned(),
        "WHERE".to_owned(),
        "event_id".to_owned(),
        "=".to_owned(),
        event_id.to_owned(),
    ];
    proof {
        assert(text::texts(args@) =~= seq![
            "FROM"@,
            EVENT_TABLE@,
            "WHERE"@,
            "event_id"@,
            "="@,
            event_id@,
        ]);
    }
    StoreStep {
        call: StoreCall { name: "TDELETE".to_owned(), args },
        excused: Some("not found".to_owned()),
        saved: false,
    }
}

} // verus!
