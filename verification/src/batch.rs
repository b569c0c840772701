//! Records by the batch.
//!
//! Each record of a batch is converted by itself. What one record comes to
//! does not depend on the others: a record that fails takes the place of
//! its own lines and of nothing else, and a record that is absent is
//! answered as absent.

use crate::conv::{decode_tenhou6, tenhou6_events};
use crate::convert::events_of;
use crate::error::ConvertError;
use crate::event::string_views;
use crate::json::{lines_of, to_json_lines};
use crate::reader::{decode_mjlog, xml_pieces};
use vstd::prelude::*;

verus! {

/// What became of one record of a batch.
#[derive(Clone, Debug, PartialEq, Eq)]
pub enum Outcome {
    /// There was no record.
    Missing,
    /// The events of the record, each in its wire form.
    Lines(Vec<String>),
    /// The record could not be converted.
    Failed(ConvertError),
}

/// What an outcome holds.
pub enum OutcomeView {
    Missing,
    Lines(Seq<Seq<char>>),
    Failed(ConvertError),
}

impl View for Outcome {
    type V = OutcomeView;

    open spec fn view(&self) -> OutcomeView {
        match *self {
            Outcome::Missing => OutcomeView::Missing,
            Outcome::Lines(lines) => OutcomeView::Lines(string_views(lines@)),
            Outcome::Failed(x) => OutcomeView::Failed(x),
        }
    }
}

/// The lines of an mjlog record, or its failure.
pub open spec fn mjlog_lines(text: Seq<char>) -> Result<Seq<Seq<char>>, ConvertError> {
    match events_of(xml_pieces(text)) {
        Ok(events) => Ok(lines_of(events)),
        Err(x) => Err(x),
    }
}

/// What becomes of one mjlog record of a batch.
pub open spec fn mjlog_outcome(record: Option<Seq<char>>) -> OutcomeView {
    match record {
        None => OutcomeView::Missing,
        Some(text) => match mjlog_lines(text) {
            Ok(lines) => OutcomeView::Lines(lines),
            Err(x) => OutcomeView::Failed(x),
        },
    }
}

/// The text of a record that may be absent.
pub open spec fn record_view(record: Option<String>) -> Option<Seq<char>> {
    match record {
        Some(text) => Some(text@),
        None => None,
    }
}

/// Converts an mjlog record to the lines of its events.
pub fn mjlog_to_lines(text: &str) -> (r: Result<Vec<String>, ConvertError>)
    ensures
        match mjlog_lines(text@) {
            Ok(lines) => r is Ok && string_views(r.unwrap()@) == lines,
            Err(x) => r == Err::<Vec<String>, ConvertError>(x),
        },
{
    match decode_mjlog(text) {
        Ok(events) => Ok(to_json_lines(&events)),
        Err(x) => Err(x),
    }
}

/// Converts a batch of mjlog records: one outcome for each record, in the
/// order of the records, each the outcome of its own record alone.
pub fn parse_mjlog(records: &Vec<Option<String>>) -> (outcomes: Vec<Outcome>)
    ensures
        outcomes@.len() == records@.len(),
        forall|i: int|
            0 <= i < records@.len() ==> (#[trigger] outcomes@[i])@ == mjlog_outcome(
                record_view(records@[i]),
            ),
{
    let mut outcomes: Vec<Outcome> = Vec::new();
    let mut i: usize = 0;
    while i < records.len()
        invariant
            i <= records@.len(),
            outcomes@.len() == i,
            forall|k: int|
                0 <= k < i ==> (#[trigger] outcomes@[k])@ == mjlog_outcome(
                    record_view(records@[k]),
                ),
        decreases records@.len() - i,
    {
        let outcome = match &records[i] {
            None => Outcome::Missing,
            Some(text) => match mjlog_to_lines(text.as_str()) {
                Ok(lines) => Outcome::Lines(lines),
                Err(x) => Outcome::Failed(x),
            },
        };
        outcomes.push(outcome);
        i = i + 1;
    }
    outcomes
}

/// The lines of a tenhou/6 log, or its failure.
pub open spec fn tenhou6_lines(text: Seq<char>) -> Result<Seq<Seq<char>>, ConvertError> {
    match tenhou6_events(text) {
        Ok(events) => Ok(lines_of(events)),
        Err(x) => Err(x),
    }
}

/// What becomes of one tenhou/6 log of a batch.
pub open spec fn tenhou6_outcome(record: Option<Seq<char>>) -> OutcomeView {
    match record {
        None => OutcomeView::Missing,
        Some(text) => match tenhou6_lines(text) {
            Ok(lines) => OutcomeView::Lines(lines),
            Err(x) => OutcomeView::Failed(x),
        },
    }
}

/// Converts a tenhou/6 log to the lines of its events.
pub fn tenhou6_to_lines(text: &str) -> (r: Result<Vec<String>, ConvertError>)
    ensures
        match tenhou6_lines(text@) {
            Ok(lines) => r is Ok && string_views(r.unwrap()@) == lines,
            Err(x) => r == Err::<Vec<String>, ConvertError>(x),
        },
{
    match decode_tenhou6(text) {
        Ok(events) => Ok(to_json_lines(&events)),
        Err(x) => Err(x),
    }
}

/// Converts a batch of tenhou/6 logs: one outcome for each log, in the
/// order of the logs, each the outcome of its own log alone.
pub fn parse_tenhou6(records: &Vec<Option<String>>) -> (outcomes: Vec<Outcome>)
    ensures
        outcomes@.len() == records@.len(),
        forall|i: int|
            0 <= i < records@.len() ==> (#[trigger] outcomes@[i])@ == tenhou6_outcome(
                record_view(records@[i]),
            ),
{
    let mut outcomes: Vec<Outcome> = Vec::new();
    let mut i: usize = 0;
    while i < records.len()
        invariant
            i <= records@.len(),
            outcomes@.len() == i,
            forall|k: int|
                0 <= k < i ==> (#[trigger] outcomes@[k])@ == tenhou6_outcome(
                    record_view(records@[k]),
                ),
        decreases records@.len() - i,
    {
        let outcome = match &records[i] {
            None => Outcome::Missing,
            Some(text) => match tenhou6_to_lines(text.as_str()) {
                Ok(lines) => Outcome::Lines(lines),
                Err(x) => Outcome::Failed(x),
            },
        };
        outcomes.push(outcome);
        i = i + 1;
    }
    outcomes
}

} // verus!
