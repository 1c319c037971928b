use vstd::prelude::*;
use vstd::string::*;
use crate::amount::{decimal_text, format_amount};
use crate::ledger::Transaction;
use crate::model::TransferRecord;

verus! {

/// What a list of lines says, line by line.
pub open spec fn texts_of(lines: Seq<String>) -> Seq<Seq<char>> {
    lines.map_values(|line: String| line@)
}

/// The six lines that report one transfer. `position` counts from one.
pub open spec fn record_lines(position: nat, record: TransferRecord) -> Seq<Seq<char>> {
    seq![
        "Transaction "@ + decimal_text(position) + ":"@,
        "Sender: "@ + record.sender,
        "Receiver: "@ + record.receiver,
        "Amount: "@ + decimal_text(record.amount),
        "Timestamp: "@ + record.timestamp,
        "--------------------------"@,
    ]
}

/// The report of a log: an empty line and the heading, then the lines of
/// every transfer, oldest first.
pub open spec fn history_lines(history: Seq<TransferRecord>) -> Seq<Seq<char>>
    decreases history.len(),
{
    if history.len() == 0 {
        seq![Seq::<char>::empty(), "Transaction History:"@]
    } else {
        history_lines(history.drop_last()) + record_lines(history.len(), history.last())
    }
}

/// A label followed by a value.
fn labelled(label: &str, value: &str) -> (line: String)
    ensures
        line@ == label@ + value@,
{
    let mut line = String::from_str(label);
    line.append(value);
    line
}

/// Appends the lines that report `transaction` as the transfer at `position`.
pub(crate) fn push_record_lines(lines: &mut Vec<String>, position: u64, transaction: &Transaction)
    ensures
        texts_of(final(lines)@) == texts_of(old(lines)@) + record_lines(
            position as nat,
            transaction@,
        ),
{
    let mut title = labelled("Transaction ", format_amount(position).as_str());
    title.append(":");
    lines.push(title);
    lines.push(labelled("Sender: ", transaction.sender.as_str()));
    lines.push(labelled("Receiver: ", transaction.receiver.as_str()));
    lines.push(labelled("Amount: ", format_amount(transaction.amount).as_str()));
    lines.push(labelled("Timestamp: ", transaction.timestamp.as_str()));
    lines.push(String::from_str("--------------------------"));
    assert(texts_of(lines@) =~= texts_of(old(lines)@) + record_lines(
        position as nat,
        transaction@,
    ));
}

/// The heading of a report.
pub(crate) fn heading_lines() -> (lines: Vec<String>)
    ensures
        texts_of(lines@) == history_lines(Seq::empty()),
{
    let mut lines = Vec::new();
    lines.push(String::new());
    lines.push(String::from_str("Transaction History:"));
    assert(texts_of(lines@) =~= history_lines(Seq::empty()));
    lines
}

} // verus!
