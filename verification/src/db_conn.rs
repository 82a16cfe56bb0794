//! The statements that the store is queried with.
use vstd::prelude::*;
use crate::text::{decimal, push_decimal};

verus! {

/// `SELECT * FROM v_thread_list `
pub open spec fn thread_list_head() -> Seq<char> {
    seq![
        'S', 'E', 'L', 'E', 'C', 'T', ' ', '*', ' ', 'F', 'R', 'O', 'M', ' ', 'v', '_', 't', 'h',
        'r', 'e', 'a', 'd', '_', 'l', 'i', 's', 't', ' ',
    ]
}

/// `WHERE INSTR(subject, ?)`
pub open spec fn subject_filter() -> Seq<char> {
    seq![
        'W', 'H', 'E', 'R', 'E', ' ', 'I', 'N', 'S', 'T', 'R', '(', 's', 'u', 'b', 'j', 'e', 'c',
        't', ',', ' ', '?', ')',
    ]
}

/// The statement that lists `count` threads from the `offset`-th on, the
/// most recently updated first; with a search text, only the threads whose
/// subject holds it (the text is its one parameter).
pub open spec fn thread_list_statement(has_query: bool, offset: nat, count: nat) -> Seq<char> {
    thread_list_head() + (if has_query {
        subject_filter()
    } else {
        Seq::empty()
    }) + seq!['L', 'I', 'M', 'I', 'T', ' '] + decimal(offset) + seq![',', ' '] + decimal(count)
}

/// The statement that lists threads; see `thread_list_statement`.
pub fn thread_list_sql(has_query: bool, offset: usize, count: usize) -> (r: String)
    ensures
        r@ == thread_list_statement(has_query, offset as nat, count as nat),
{
    proof {
        reveal_strlit("SELECT * FROM v_thread_list ");
        reveal_strlit("WHERE INSTR(subject, ?)");
        reveal_strlit("LIMIT ");
        reveal_strlit(", ");
    }
    let mut sql = String::from_str("SELECT * FROM v_thread_list ");
    if has_query {
        sql.append("WHERE INSTR(subject, ?)");
    }
    let ghost head = sql@;
    sql.append("LIMIT ");
    push_decimal(&mut sql, offset as u64);
    sql.append(", ");
    push_decimal(&mut sql, count as u64);
    assert(head == thread_list_head() + (if has_query {
        subject_filter()
    } else {
        Seq::empty()
    }));
    sql
}

/// The pattern that finds the tags whose name holds `q`.
pub fn tag_like_pattern(q: &str) -> (r: String)
    ensures
        r@ == seq!['%'] + q@ + seq!['%'],
{
    proof {
        reveal_strlit("%");
    }
    let mut p = String::from_str("%");
    p.append(q);
    p.append("%");
    p
}

} // verus!
