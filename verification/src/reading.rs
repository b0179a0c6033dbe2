//! The reading parser: from one line of text to the channel values it holds.
//!
//! A line is a list of numerals separated by commas, one per sensor channel,
//! in an order that the board's protocol fixes. A line of another length, or
//! one with a field that is no numeral, is discarded as a whole: nothing is
//! read from it.

use crate::numeral::copy_numerals;
use crate::numeral::is_numeral;
use crate::numeral::texts;
use crate::numeral::Numeral;
use crate::split::split;
use crate::split::split_bytes;
use crate::split::views;
use vstd::prelude::*;
use vstd::slice::slice_to_vec;

verus! {

/// The byte that separates the fields of a line.
pub const COMMA: u8 = 0x2c;

/// Why a line was discarded.
#[derive(Debug, PartialEq, Eq)]
pub enum ParseError {
    /// The line does not have the number of fields that the protocol fixes.
    Shape { observed: usize, expected: usize },
    /// The field at `position` (counted from 0) is no numeral; `text` is what
    /// stood there.
    Conversion { position: usize, text: Vec<u8> },
}

/// A [`ParseError`] as contracts speak of it.
pub enum ParseFault {
    Shape { observed: nat, expected: nat },
    Conversion { position: nat, text: Seq<u8> },
}

impl View for ParseError {
    type V = ParseFault;

    open spec fn view(&self) -> ParseFault {
        match *self {
            ParseError::Shape { observed, expected } => ParseFault::Shape {
                observed: observed as nat,
                expected: expected as nat,
            },
            ParseError::Conversion { position, text } => ParseFault::Conversion {
                position: position as nat,
                text: text@,
            },
        }
    }
}

impl Clone for ParseError {
    fn clone(&self) -> (r: Self)
        ensures
            r@ == self@,
    {
        match self {
            ParseError::Shape { observed, expected } => ParseError::Shape {
                observed: *observed,
                expected: *expected,
            },
            ParseError::Conversion { position, text } => ParseError::Conversion {
                position: *position,
                text: slice_to_vec(text.as_slice()),
            },
        }
    }
}

/// The position of the first field that is no numeral, if there is one.
pub open spec fn first_non_numeral(fields: Seq<Seq<u8>>) -> Option<int>
    decreases fields.len(),
{
    if fields.len() == 0 {
        None
    } else {
        match first_non_numeral(fields.drop_last()) {
            Some(p) => Some(p),
            None => if is_numeral(fields.last()) {
                None
            } else {
                Some(fields.len() - 1)
            },
        }
    }
}

/// What a line holds for a protocol of `arity` channels: its fields where
/// there are `arity` of them and each is a numeral, else the reason for
/// discarding it. The number of fields is judged first.
pub open spec fn reading_of(line: Seq<u8>, arity: nat) -> Result<Seq<Seq<u8>>, ParseFault> {
    let fields = split(line, COMMA);
    if fields.len() != arity {
        Err(ParseFault::Shape { observed: fields.len(), expected: arity })
    } else {
        match first_non_numeral(fields) {
            Some(p) => Err(ParseFault::Conversion { position: p as nat, text: fields[p] }),
            None => Ok(fields),
        }
    }
}

/// [`first_non_numeral`] finds nothing exactly where every field is a numeral,
/// and else the least position of a field that is none.
pub proof fn lemma_first_non_numeral(fields: Seq<Seq<u8>>)
    ensures
        first_non_numeral(fields) is None <==> forall|i: int|
            0 <= i < fields.len() ==> is_numeral(#[trigger] fields[i]),
        first_non_numeral(fields) matches Some(p) ==> {
            &&& 0 <= p < fields.len()
            &&& !is_numeral(fields[p])
            &&& forall|i: int| 0 <= i < p ==> is_numeral(#[trigger] fields[i])
        },
    decreases fields.len(),
{
    if fields.len() > 0 {
        let front = fields.drop_last();
        lemma_first_non_numeral(front);
        assert forall|i: int| 0 <= i < front.len() implies front[i] == fields[i] by {}
        match first_non_numeral(front) {
            Some(p) => {
                assert(front[p] == fields[p]);
                assert forall|i: int| 0 <= i < p implies is_numeral(#[trigger] fields[i]) by {
                    assert(front[i] == fields[i]);
                }
            },
            None => {
                assert forall|i: int| 0 <= i < fields.len() - 1 implies is_numeral(
                    #[trigger] fields[i],
                ) by {
                    assert(front[i] == fields[i]);
                }
                if is_numeral(fields.last()) {
                    assert forall|i: int| 0 <= i < fields.len() implies is_numeral(
                        #[trigger] fields[i],
                    ) by {
                        if i < fields.len() - 1 {
                            assert(front[i] == fields[i]);
                        }
                    }
                }
            },
        }
    }
}

/// A line with fewer or more fields than the protocol has channels is
/// discarded for its shape, whatever its fields hold.
pub proof fn lemma_wrong_length_is_shape_error(line: Seq<u8>, arity: nat)
    requires
        split(line, COMMA).len() != arity,
    ensures
        reading_of(line, arity) == Err::<Seq<Seq<u8>>, ParseFault>(
            ParseFault::Shape { observed: split(line, COMMA).len(), expected: arity },
        ),
{
}

/// A line of the right length whose first field that is no numeral stands at
/// `position` is discarded with a conversion error that names that position
/// and that field.
pub proof fn lemma_bad_field_is_conversion_error(line: Seq<u8>, arity: nat, position: int)
    requires
        split(line, COMMA).len() == arity,
        0 <= position < arity,
        !is_numeral(split(line, COMMA)[position]),
        forall|i: int| 0 <= i < position ==> is_numeral(#[trigger] split(line, COMMA)[i]),
    ensures
        reading_of(line, arity) == Err::<Seq<Seq<u8>>, ParseFault>(
            ParseFault::Conversion {
                position: position as nat,
                text: split(line, COMMA)[position],
            },
        ),
{
    let fields = split(line, COMMA);
    lemma_first_non_numeral(fields);
    match first_non_numeral(fields) {
        Some(p) => {
            if p < position {
                assert(is_numeral(fields[p]));
            } else if position < p {
                assert(is_numeral(fields[position]));
            }
        },
        None => {
            assert(is_numeral(fields[position]));
        },
    }
}

/// A line of the right length whose fields are all numerals is read, and its
/// values are its fields in order.
pub proof fn lemma_numeral_fields_are_read(line: Seq<u8>, arity: nat)
    requires
        split(line, COMMA).len() == arity,
        forall|i: int| 0 <= i < arity ==> is_numeral(#[trigger] split(line, COMMA)[i]),
    ensures
        reading_of(line, arity) == Ok::<Seq<Seq<u8>>, ParseFault>(split(line, COMMA)),
{
    lemma_first_non_numeral(split(line, COMMA));
}

/// The values of one line: one numeral per channel, in the order of the line.
#[derive(Debug, PartialEq, Eq)]
pub struct ChannelValues {
    values: Vec<Numeral>,
}

impl View for ChannelValues {
    type V = Seq<Seq<u8>>;

    closed spec fn view(&self) -> Seq<Seq<u8>> {
        texts(self.values@)
    }
}

impl ChannelValues {
    /// Takes the numerals as the values of one line.
    pub fn new(values: Vec<Numeral>) -> (r: ChannelValues)
        ensures
            r@ == texts(values@),
    {
        ChannelValues { values }
    }

    /// How many values there are.
    pub fn len(&self) -> (n: usize)
        ensures
            n == self@.len(),
    {
        self.values.len()
    }

    /// The value of the channel at a `position` that the line has.
    pub(crate) fn at(&self, position: usize) -> (n: &Numeral)
        requires
            position < self@.len(),
        ensures
            n@ == self@[position as int],
    {
        &self.values[position]
    }

    /// The value of the channel at `position`, counted from 0.
    pub fn get(&self, position: usize) -> (r: Option<&Numeral>)
        ensures
            r is Some <==> position < self@.len(),
            r matches Some(n) ==> n@ == self@[position as int] && is_numeral(n@),
    {
        if position < self.values.len() {
            let n = &self.values[position];
            proof {
                use_type_invariant(n);
            }
            Some(n)
        } else {
            None
        }
    }
}

impl Clone for ChannelValues {
    fn clone(&self) -> (r: Self)
        ensures
            r@ == self@,
    {
        ChannelValues { values: copy_numerals(&self.values) }
    }
}

/// Reads one line of a protocol with `arity` channels.
///
/// The line is split at its commas. Where the number of fields is not
/// `arity`, the line is discarded with [`ParseError::Shape`]. Else every field
/// is checked against the numeral grammar, from the first on; the first that
/// fails discards the line with [`ParseError::Conversion`]. Nothing is
/// trimmed: a blank before or after a number makes the field fail.
pub fn parse_reading(line: &[u8], arity: usize) -> (r: Result<ChannelValues, ParseError>)
    ensures
        match r {
            Ok(values) => reading_of(line@, arity as nat) == Ok::<Seq<Seq<u8>>, ParseFault>(
                values@,
            ),
            Err(e) => reading_of(line@, arity as nat) == Err::<Seq<Seq<u8>>, ParseFault>(e@),
        },
{
    let parts = split_bytes(line, COMMA);
    let ghost fields = split(line@, COMMA);
    if parts.len() != arity {
        return Err(ParseError::Shape { observed: parts.len(), expected: arity });
    }
    let mut values: Vec<Numeral> = Vec::new();
    let mut i: usize = 0;
    assert(fields.take(0) =~= Seq::<Seq<u8>>::empty());
    while i < parts.len()
        invariant
            i <= parts@.len(),
            parts@.len() == arity,
            fields == split(line@, COMMA),
            views(parts@) == fields,
            texts(values@) == fields.take(i as int),
            first_non_numeral(fields.take(i as int)) is None,
        decreases parts@.len() - i,
    {
        let ghost seen = fields.take(i as int + 1);
        assert(seen.drop_last() =~= fields.take(i as int));
        assert(seen.last() == fields[i as int]);
        assert(views(parts@)[i as int] == parts@[i as int]@);
        match Numeral::parse(parts[i].as_slice()) {
            Some(n) => {
                let ghost before = texts(values@);
                values.push(n);
                assert(texts(values@) =~= before.push(n@));
                assert(texts(values@) =~= seen);
            },
            None => {
                proof {
                    lemma_first_non_numeral(fields);
                    lemma_first_non_numeral(fields.take(i as int));
                    assert forall|k: int| 0 <= k < i implies is_numeral(#[trigger] fields[k]) by {
                        assert(fields.take(i as int)[k] == fields[k]);
                    }
                    match first_non_numeral(fields) {
                        Some(p) => {
                            if p < i {
                                assert(is_numeral(fields[p]));
                            } else if i < p {
                                assert(is_numeral(fields[i as int]));
                            }
                        },
                        None => {
                            assert(is_numeral(fields[i as int]));
                        },
                    }
                }
                return Err(
                    ParseError::Conversion { position: i, text: slice_to_vec(parts[i].as_slice()) },
                );
            },
        }
        i += 1;
    }
    assert(fields.take(i as int) =~= fields);
    Ok(ChannelValues { values })
}

} // verus!
