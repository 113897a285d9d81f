//! The rows of the session store.

use vstd::prelude::*;

verus! {

/// Counts at or above this many, in either direction, are milliseconds.
pub const MS_THRESHOLD: i64 = 1_000_000_000_000;

/// The version of the rules by which token usage is read.
pub const USAGE_PARSER_VERSION: u32 = 1;

/// The version of the rules by which tool events are read.
pub const EVENT_PARSER_VERSION: u32 = 1;

/// The version of the rules by which session metadata is read.
pub const METADATA_PARSER_VERSION: u32 = 1;

/// A row of the table of sessions.
#[derive(Debug, PartialEq)]
pub struct SessionRow {
    pub id: String,
    pub working_directory: String,
    pub title: Option<String>,
    pub model: Option<String>,
    pub backend_type: Option<String>,
    pub created_at: i64,
    pub last_activity_at: i64,
    pub hidden: i64,
}

#[verifier::ext_equal]
pub struct SessionRowView {
    pub id: Seq<char>,
    pub working_directory: Seq<char>,
    pub title: Option<Seq<char>>,
    pub model: Option<Seq<char>>,
    pub backend_type: Option<Seq<char>>,
    pub created_at: i64,
    pub last_activity_at: i64,
    pub hidden: i64,
}

impl DeepView for SessionRow {
    type V = SessionRowView;

    open spec fn deep_view(&self) -> SessionRowView {
        SessionRowView {
            id: self.id@,
            working_directory: self.working_directory@,
            title: self.title.deep_view(),
            model: self.model.deep_view(),
            backend_type: self.backend_type.deep_view(),
            created_at: self.created_at,
            last_activity_at: self.last_activity_at,
            hidden: self.hidden,
        }
    }
}

/// A row of the table of message nodes. A message that is replayed in a later
/// node has the same `dedupe_key` there.
#[derive(Debug, PartialEq)]
pub struct MessageNode {
    pub node_id: i64,
    pub parent_node_id: Option<i64>,
    pub chat_message: String,
    pub dedupe_key: String,
    pub created_at: i64,
}

#[verifier::ext_equal]
pub struct MessageNodeView {
    pub node_id: i64,
    pub parent_node_id: Option<i64>,
    pub chat_message: Seq<char>,
    pub dedupe_key: Seq<char>,
    pub created_at: i64,
}

impl DeepView for MessageNode {
    type V = MessageNodeView;

    open spec fn deep_view(&self) -> MessageNodeView {
        MessageNodeView {
            node_id: self.node_id,
            parent_node_id: self.parent_node_id,
            chat_message: self.chat_message@,
            dedupe_key: self.dedupe_key@,
            created_at: self.created_at,
        }
    }
}

/// A timestamp in milliseconds: one whose magnitude is below the threshold is in
/// seconds, any other is in milliseconds already.
pub open spec fn in_milliseconds(timestamp: i64) -> i64 {
    if -MS_THRESHOLD < timestamp < MS_THRESHOLD {
        (timestamp * 1000) as i64
    } else {
        timestamp
    }
}

/// A timestamp of the store in milliseconds.
pub fn seconds_to_ms(timestamp: i64) -> (r: i64)
    ensures
        r == in_milliseconds(timestamp),
        -MS_THRESHOLD < timestamp < MS_THRESHOLD ==> r == timestamp * 1000,
{
    if timestamp <= -MS_THRESHOLD || timestamp >= MS_THRESHOLD {
        timestamp
    } else {
        timestamp * 1000
    }
}

/// A timestamp of at least a thousand million seconds, or any in milliseconds,
/// is not converted twice. A smaller one would be, unless it is zero.
pub proof fn law_conversion_is_done_once(timestamp: i64)
    requires
        timestamp >= 1_000_000_000 || timestamp <= -1_000_000_000 || timestamp == 0,
    ensures
        in_milliseconds(in_milliseconds(timestamp)) == in_milliseconds(timestamp),
{
}

/// The rows that could be read, in their order.
pub open spec fn readable<T>(rows: Seq<Option<T>>) -> Seq<T>
    decreases rows.len(),
{
    if rows.len() == 0 {
        Seq::empty()
    } else {
        match rows.last() {
            Some(row) => readable(rows.drop_last()).push(row),
            None => readable(rows.drop_last()),
        }
    }
}

/// Keeps the rows that could be read, in their order, and drops the others.
pub fn readable_rows<T>(rows: Vec<Option<T>>) -> (r: Vec<T>)
    ensures
        r@ == readable(rows@),
{
    let ghost all = rows@;
    let mut kept: Vec<T> = Vec::new();
    for row in iter: rows
        invariant
            iter.seq() == all,
            kept@ == readable(all.take(iter.index() as int)),
    {
        proof {
            let at = iter.index() as int;
            assert(all.take(at + 1).drop_last() =~= all.take(at));
        }
        match row {
            Some(row) => kept.push(row),
            None => {},
        }
    }
    assert(all.take(all.len() as int) =~= all);
    kept
}

/// A timestamp below a million million, in either direction, is in seconds and
/// becomes a thousand times as many milliseconds; any other stays as it is.
pub proof fn law_seconds_become_milliseconds(timestamp: i64)
    ensures
        -1_000_000_000_000 < timestamp < 1_000_000_000_000 ==> in_milliseconds(timestamp)
            == timestamp * 1000,
        timestamp <= -1_000_000_000_000 || timestamp >= 1_000_000_000_000 ==> in_milliseconds(
            timestamp,
        ) == timestamp,
{
}

/// Of two runs of rows those are kept that are kept of each, in their order; a row
/// that could be read is kept, and one that could not is dropped.
pub proof fn law_readable_rows_are_kept<T>(rows: Seq<Option<T>>, more: Seq<Option<T>>, row: T)
    ensures
        readable(rows + more) == readable(rows) + readable(more),
        readable(seq![Some(row)]) == seq![row],
        readable(seq![None::<T>]) == Seq::<T>::empty(),
    decreases more.len(),
{
    reveal_with_fuel(readable, 3);
    assert(seq![Some(row)].drop_last() =~= Seq::empty());
    assert(seq![None::<T>].drop_last() =~= Seq::empty());
    assert(readable(seq![Some(row)]) =~= seq![row]);
    if more.len() == 0 {
        assert(rows + more =~= rows);
        assert(readable(rows) + readable(more) =~= readable(rows));
    } else {
        law_readable_rows_are_kept(rows, more.drop_last(), row);
        assert((rows + more).drop_last() =~= rows + more.drop_last());
        assert(readable(rows + more) =~= readable(rows) + readable(more));
    }
}

} // verus!
