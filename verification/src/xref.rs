//! Cross-references: one text field in which the middle dot separates a
//! word, a reading and a sense number, and also sits inside katakana words.

use crate::error::{ErrorKind, ParseError};
use crate::text::{
    all_katakana, chars_of, join, katakana_only, lemma_join_prefix, lemma_join_split,
    lemma_split_nonempty, lemma_split_single, parse_unsigned, rows, split, split_on, unsigned_of,
    MIDDLE_DOT,
};
use vstd::prelude::*;
use vstd::string::*;

verus! {

/// A pointer from a sense to a word elsewhere in the dictionary.
#[derive(Debug, PartialEq)]
pub struct CrossReference {
    pub kanji_or_reading: String,
    pub reading: Option<String>,
    pub sense_index: Option<u8>,
}

/// The mathematical content of a [`CrossReference`].
pub struct CrossReferenceModel {
    pub kanji_or_reading: Seq<char>,
    pub reading: Option<Seq<char>>,
    pub sense_index: Option<u8>,
}

impl View for CrossReference {
    type V = CrossReferenceModel;

    open spec fn view(&self) -> CrossReferenceModel {
        CrossReferenceModel {
            kanji_or_reading: self.kanji_or_reading@,
            reading: match self.reading {
                Some(s) => Some(s@),
                None => None,
            },
            sense_index: self.sense_index,
        }
    }
}

impl DeepView for CrossReference {
    type V = CrossReferenceModel;

    open spec fn deep_view(&self) -> CrossReferenceModel {
        self@
    }
}

/// The sense number that closes a cross-reference of these parts, if there
/// is one: the last part read as a number up to 255.
pub open spec fn sense_index_of(parts: Seq<Seq<char>>) -> Option<u8> {
    match unsigned_of(parts.last(), 255) {
        Some(n) => Some(n as u8),
        None => None,
    }
}

/// The parts that are not the sense number.
pub open spec fn name_parts(parts: Seq<Seq<char>>) -> Seq<Seq<char>> {
    if sense_index_of(parts) is Some {
        parts.drop_last()
    } else {
        parts
    }
}

/// What a cross-reference text means.
///
/// A text without a dot is the word. Otherwise a number in the last part is
/// the sense. When the first part is katakana the dots belong to the word,
/// which is all the other parts joined again; else the other parts are the
/// word and, if there is a second one, the reading, and a third is an error.
pub open spec fn cross_reference_of(input: Seq<char>) -> Result<CrossReferenceModel, ErrorKind> {
    let parts = split(input, MIDDLE_DOT);
    let names = name_parts(parts);
    if input.len() == 0 {
        Err(ErrorKind::EmptyCrossReference)
    } else if parts.len() == 1 {
        Ok(CrossReferenceModel { kanji_or_reading: input, reading: None, sense_index: None })
    } else if all_katakana(parts[0]) {
        Ok(
            CrossReferenceModel {
                kanji_or_reading: join(names, MIDDLE_DOT),
                reading: None,
                sense_index: sense_index_of(parts),
            },
        )
    } else if names.len() > 2 {
        Err(ErrorKind::AmbiguousCrossReference)
    } else {
        Ok(
            CrossReferenceModel {
                kanji_or_reading: names[0],
                reading: if names.len() == 2 {
                    Some(names[1])
                } else {
                    None
                },
                sense_index: sense_index_of(parts),
            },
        )
    }
}

/// A text without a dot is the word itself, with no reading and no sense.
pub proof fn lemma_plain_word(input: Seq<char>)
    requires
        input.len() > 0,
        forall|i: int| 0 <= i < input.len() ==> input[i] != MIDDLE_DOT,
    ensures
        cross_reference_of(input) == Ok::<CrossReferenceModel, ErrorKind>(
            CrossReferenceModel { kanji_or_reading: input, reading: None, sense_index: None },
        ),
{
    lemma_split_single(input, MIDDLE_DOT);
}

/// A katakana compound without a sense number is the word as it was written,
/// dots included, however many parts it has.
pub proof fn lemma_katakana_word(input: Seq<char>)
    requires
        split(input, MIDDLE_DOT).len() > 1,
        all_katakana(split(input, MIDDLE_DOT)[0]),
        sense_index_of(split(input, MIDDLE_DOT)) is None,
    ensures
        cross_reference_of(input) == Ok::<CrossReferenceModel, ErrorKind>(
            CrossReferenceModel { kanji_or_reading: input, reading: None, sense_index: None },
        ),
{
    lemma_join_split(input, MIDDLE_DOT);
    if input.len() == 0 {
        assert(split(input, MIDDLE_DOT).len() == 1);
    }
}

/// A katakana compound with a sense number is the text before the last dot,
/// with that number: the word, a dot and the number make up the input again.
pub proof fn lemma_katakana_numbered(input: Seq<char>)
    requires
        split(input, MIDDLE_DOT).len() > 1,
        all_katakana(split(input, MIDDLE_DOT)[0]),
        sense_index_of(split(input, MIDDLE_DOT)) is Some,
    ensures
        cross_reference_of(input) matches Ok(x) && x.reading is None && x.sense_index
            == sense_index_of(split(input, MIDDLE_DOT)) && x.kanji_or_reading + seq![MIDDLE_DOT]
            + split(input, MIDDLE_DOT).last() == input,
{
    lemma_join_split(input, MIDDLE_DOT);
    if input.len() == 0 {
        assert(split(input, MIDDLE_DOT).len() == 1);
    }
}

/// Outside katakana a cross-reference has a word, at most one reading and at
/// most one sense number: more parts than that are refused.
pub proof fn lemma_too_many_parts(input: Seq<char>)
    requires
        !all_katakana(split(input, MIDDLE_DOT)[0]),
        name_parts(split(input, MIDDLE_DOT)).len() > 2,
    ensures
        cross_reference_of(input) == Err::<CrossReferenceModel, ErrorKind>(
            ErrorKind::AmbiguousCrossReference,
        ),
{
    if input.len() == 0 {
        assert(split(input, MIDDLE_DOT).len() == 1);
    }
}

/// Joining one part more appends the separator and that part.
proof fn lemma_join_take_step(parts: Seq<Seq<char>>, sep: char, j: int)
    requires
        1 <= j < parts.len(),
    ensures
        join(parts.take(j + 1), sep) == join(parts.take(j), sep) + seq![sep] + parts[j],
{
    assert(parts.take(j + 1).drop_last() =~= parts.take(j));
}

/// Joining more parts gives a longer text.
proof fn lemma_join_take_len(parts: Seq<Seq<char>>, sep: char, j: int, k: int)
    requires
        1 <= j <= k <= parts.len(),
    ensures
        join(parts.take(j), sep).len() <= join(parts.take(k), sep).len(),
    decreases k - j,
{
    if j < k {
        lemma_join_take_len(parts, sep, j, k - 1);
        lemma_join_take_step(parts, sep, k - 1);
    }
}

/// The length of the first `k` parts joined with a separator.
fn joined_len(parts: &Vec<Vec<char>>, k: usize) -> (n: usize)
    requires
        1 <= k <= parts.len(),
        join(rows(parts@).take(k as int), MIDDLE_DOT).len() <= usize::MAX,
    ensures
        n == join(rows(parts@).take(k as int), MIDDLE_DOT).len(),
{
    let mut n: usize = parts[0].len();
    let mut j: usize = 1;
    assert(rows(parts@).take(1).len() == 1);
    while j < k
        invariant
            1 <= j <= k <= parts.len(),
            n == join(rows(parts@).take(j as int), MIDDLE_DOT).len(),
            join(rows(parts@).take(k as int), MIDDLE_DOT).len() <= usize::MAX,
        decreases k - j,
    {
        proof {
            lemma_join_take_step(rows(parts@), MIDDLE_DOT, j as int);
            lemma_join_take_len(rows(parts@), MIDDLE_DOT, j + 1, k as int);
        }
        n = n + 1 + parts[j].len();
        j += 1;
    }
    n
}

/// Reads a cross-reference text. `buffer_position` is the offset that an
/// error carries.
pub fn parse_cross_ref(input: &str, buffer_position: usize) -> (r: Result<
    CrossReference,
    ParseError,
>)
    ensures
        match cross_reference_of(input@) {
            Ok(model) => r matches Ok(x) && x@ == model,
            Err(kind) => r matches Err(e) && e == (ParseError { kind, offset: buffer_position }),
        },
{
    let chars = chars_of(input);
    if chars.len() == 0 {
        return Err(ParseError { kind: ErrorKind::EmptyCrossReference, offset: buffer_position });
    }
    let parts = split_on(&chars, MIDDLE_DOT);
    proof {
        lemma_split_nonempty(chars@, MIDDLE_DOT);
    }
    if parts.len() == 1 {
        return Ok(
            CrossReference { kanji_or_reading: input.to_owned(), reading: None, sense_index: None },
        );
    }
    let sense_index: Option<u8> = match parse_unsigned(&parts[parts.len() - 1], 255) {
        Some(n) => Some(n as u8),
        None => None,
    };
    let names: usize = if sense_index.is_some() {
        parts.len() - 1
    } else {
        parts.len()
    };
    assert(names == name_parts(rows(parts@)).len());
    assert(name_parts(rows(parts@)) =~= rows(parts@).take(names as int));
    if katakana_only(&parts[0]) {
        proof {
            lemma_join_prefix(chars@, MIDDLE_DOT, names as int);
        }
        let total = joined_len(&parts, names);
        let word = input.substring_char(0, total).to_owned();
        Ok(CrossReference { kanji_or_reading: word, reading: None, sense_index })
    } else {
        if names > 2 {
            return Err(
                ParseError { kind: ErrorKind::AmbiguousCrossReference, offset: buffer_position },
            );
        }
        proof {
            lemma_join_prefix(chars@, MIDDLE_DOT, 1);
            assert(rows(parts@).take(1).len() == 1);
        }
        let first = parts[0].len();
        let word = input.substring_char(0, first).to_owned();
        let reading = if names == 2 {
            proof {
                lemma_join_prefix(chars@, MIDDLE_DOT, 2);
                lemma_join_take_step(rows(parts@), MIDDLE_DOT, 1);
                let both = join(rows(parts@).take(2), MIDDLE_DOT);
                assert(both.subrange(first + 1, both.len() as int) =~= rows(parts@)[1]);
                assert(both.subrange(first + 1, both.len() as int) =~= input@.subrange(
                    first + 1,
                    first + 1 + parts[1].len(),
                ));
            }
            Some(input.substring_char(first + 1, first + 1 + parts[1].len()).to_owned())
        } else {
            None
        };
        Ok(CrossReference { kanji_or_reading: word, reading, sense_index })
    }
}

} // verus!
