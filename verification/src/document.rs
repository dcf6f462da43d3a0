//! The whole document: every record at its top level, in order.

use crate::entry::{
    entry_run, entry_start, lemma_entry_rest, lemma_entry_wf, parse_entry, Entry, EntryModel,
};
use crate::error::{ErrorKind, ParseError, Warning, WarningModel};
use crate::outcome::{lemma_deep_view_empty, lemma_deep_view_push, Outcome};
use crate::schema::{classify, tag_of, Tag};
use crate::token::{document_events, TokenKind, TokenKindModel, TokenStream, XmlEvent};
use vstd::prelude::*;

verus! {

/// Whether every record of a list is well formed.
pub open spec fn all_wf(entries: Seq<EntryModel>) -> bool {
    forall|i: int| 0 <= i < entries.len() ==> (#[trigger] entries[i]).wf()
}

/// The scan of `events` for records, with those found before in `found` and
/// the warnings so far in `log`.
///
/// Each opening tag of a record hands the events that follow to the record
/// parser; its record joins the list and the scan goes on behind what it
/// read, or its error ends the scan. Every other event is passed over, but
/// for malformed markup, which is an error, and the end of the document,
/// which ends the scan with the list and is not taken off.
pub open spec fn document_run(
    events: Seq<XmlEvent>,
    found: Seq<EntryModel>,
    log: Seq<WarningModel>,
) -> Outcome<Seq<EntryModel>>
    decreases events.len(),
{
    if events.len() == 0 {
        Outcome { result: Ok(found), rest: events, position: 0, warnings: log }
    } else {
        let offset = events[0].offset;
        let rest = events.skip(1);
        match events[0].kind {
            TokenKindModel::Start { name, content } => if tag_of(name) == Tag::Entry {
                let sub = entry_run(rest, entry_start(), log);
                proof {
                    lemma_entry_rest(rest, entry_start(), log);
                }
                match sub.result {
                    Ok(entry) => document_run(sub.rest, found.push(entry), sub.warnings),
                    Err(e) => Outcome {
                        result: Err(e),
                        rest: sub.rest,
                        position: sub.position,
                        warnings: sub.warnings,
                    },
                }
            } else {
                document_run(rest, found, log)
            },
            TokenKindModel::Eof => Outcome {
                result: Ok(found),
                rest: events,
                position: offset,
                warnings: log,
            },
            TokenKindModel::Invalid => Outcome {
                result: Err(ParseError { kind: ErrorKind::Markup, offset }),
                rest,
                position: offset,
                warnings: log,
            },
            _ => document_run(rest, found, log),
        }
    }
}

/// A scan that succeeds gives well-formed records only, provided those found
/// before were so: a document with one bad record yields no list at all.
pub proof fn lemma_document_wf(
    events: Seq<XmlEvent>,
    found: Seq<EntryModel>,
    log: Seq<WarningModel>,
)
    requires
        all_wf(found),
    ensures
        document_run(events, found, log).result matches Ok(entries) ==> all_wf(entries),
    decreases events.len(),
{
    if events.len() > 0 {
        let rest = events.skip(1);
        match events[0].kind {
            TokenKindModel::Start { name, content } => if tag_of(name) == Tag::Entry {
                let sub = entry_run(rest, entry_start(), log);
                lemma_entry_rest(rest, entry_start(), log);
                lemma_entry_wf(rest, entry_start(), log);
                match sub.result {
                    Ok(entry) => lemma_document_wf(sub.rest, found.push(entry), sub.warnings),
                    Err(e) => {},
                }
            } else {
                lemma_document_wf(rest, found, log);
            },
            TokenKindModel::Eof => {},
            TokenKindModel::Invalid => {},
            _ => lemma_document_wf(rest, found, log),
        }
    }
}

/// Reads the records at the top level of the rest of a document, up to its
/// end or to the first error.
pub fn scan_entries(stream: &mut TokenStream, warnings: &mut Vec<Warning>) -> (r: Result<
    Vec<Entry>,
    ParseError,
>)
    ensures
        ({
            let out = document_run(
                old(stream).pending(),
                Seq::empty(),
                (*old(warnings)).deep_view(),
            );
            &&& final(stream).pending() == out.rest
            &&& final(stream).position() == out.position
            &&& (*final(warnings)).deep_view() == out.warnings
            &&& match r {
                Ok(entries) => out.result == Ok::<Seq<EntryModel>, ParseError>(
                    entries.deep_view(),
                ) && all_wf(entries.deep_view()),
                Err(e) => out.result == Err::<Seq<EntryModel>, ParseError>(e),
            }
        }),
{
    let ghost out = document_run(stream.pending(), Seq::empty(), (*warnings).deep_view());
    let mut entries: Vec<Entry> = Vec::new();
    proof {
        lemma_deep_view_empty(entries);
    }
    loop
        invariant
            out == document_run(old(stream).pending(), Seq::empty(), (*old(warnings)).deep_view()),
            out == document_run(stream.pending(), entries.deep_view(), (*warnings).deep_view()),
            all_wf(entries.deep_view()),
        decreases stream.pending().len(),
    {
        let token = stream.next_token();
        let offset = token.offset;
        let ghost rest = stream.pending();
        let ghost log = (*warnings).deep_view();
        match token.kind {
            TokenKind::Start { name, content } => {
                if classify(name.as_slice()) == Tag::Entry {
                    proof {
                        lemma_entry_rest(rest, entry_start(), log);
                    }
                    match parse_entry(stream, warnings) {
                        Ok(entry) => {
                            let ghost before = entries;
                            entries.push(entry);
                            proof {
                                lemma_deep_view_push(before, entries, entry);
                            }
                        },
                        Err(e) => {
                            return Err(e);
                        },
                    }
                }
            },
            TokenKind::Eof => {
                return Ok(entries);
            },
            TokenKind::Invalid => {
                return Err(ParseError { kind: ErrorKind::Markup, offset });
            },
            _ => {},
        }
    }
}

/// Reads every record of a document. Warnings are appended to `warnings`.
pub fn get_entries(input: &[u8], warnings: &mut Vec<Warning>) -> (r: Result<Vec<Entry>, ParseError>)
    ensures
        ({
            let out = document_run(
                document_events(input@),
                Seq::empty(),
                (*old(warnings)).deep_view(),
            );
            &&& (*final(warnings)).deep_view() == out.warnings
            &&& match r {
                Ok(entries) => out.result == Ok::<Seq<EntryModel>, ParseError>(
                    entries.deep_view(),
                ) && all_wf(entries.deep_view()),
                Err(e) => out.result == Err::<Seq<EntryModel>, ParseError>(e),
            }
        }),
{
    let mut stream = TokenStream::new(input);
    scan_entries(&mut stream, warnings)
}

} // verus!
