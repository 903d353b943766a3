//! What can go wrong while journal records are read.

use vstd::prelude::*;
use vstd::std_specs::convert::FromSpecImpl;
use vstd::string::*;
use crate::text::decimal;
use crate::text::join_with;
use crate::text::lemma_join_with_push;
use crate::text::u64_to_string;

verus! {

/// The error type of std's input and output.
#[verifier::external_type_specification]
#[verifier::external_body]
pub struct ExIoError(std::io::Error);

/// Why no record was read.
#[derive(Debug)]
pub enum UsnReaderError {
    /// The source of the bytes failed.
    IO(std::io::Error),
    /// The bytes at the place read are no record.
    MalformedRecord(String),
    /// The record is of a major version that is not read: 3 or 4.
    UnsupportedJournalVersion(u16),
    /// The bytes given are too few for a FILETIME.
    FailedToReadWindowsTime(Vec<u8>),
    /// The records have come to their end.
    NoMoreData,
}

/// `std::fmt::Display` of `std::io::Error`, through `format!`: the text
/// that std gives for the error.
#[verifier::external_body]
fn io_error_text(error: &std::io::Error) -> (text: String) {
    format!("{}", error)
}

/// The numerals of the bytes.
pub open spec fn byte_numerals(bytes: Seq<u8>) -> Seq<Seq<char>> {
    bytes.map_values(|b: u8| decimal(b as nat))
}

/// A list of bytes as text: the numerals between square brackets, with a
/// comma and a space between each two.
pub open spec fn bytes_text(bytes: Seq<u8>) -> Seq<char> {
    seq!['['] + join_with(byte_numerals(bytes), seq![',', ' ']) + seq![']']
}

/// Writes a list of bytes as text.
pub fn bytes_to_string(bytes: &Vec<u8>) -> (text: String)
    ensures
        text@ == bytes_text(bytes@),
{
    proof {
        reveal_strlit("[");
        reveal_strlit(", ");
        reveal_strlit("]");
        assert("["@ =~= seq!['[']);
        assert(", "@ =~= seq![',', ' ']);
        assert("]"@ =~= seq![']']);
    }
    let mut list = String::new();
    let mut at: usize = 0;
    proof {
        assert(byte_numerals(bytes@.take(0)) =~= Seq::<Seq<char>>::empty());
    }
    while at < bytes.len()
        invariant
            at <= bytes@.len(),
            ", "@ == seq![',', ' '],
            list@ == join_with(byte_numerals(bytes@.take(at as int)), seq![',', ' ']),
        decreases bytes@.len() - at,
    {
        proof {
            let before = bytes@.take(at as int);
            assert(bytes@.take(at + 1) =~= before.push(bytes@[at as int]));
            assert(byte_numerals(before.push(bytes@[at as int])) =~= byte_numerals(before).push(
                decimal(bytes@[at as int] as nat),
            ));
            lemma_join_with_push(
                byte_numerals(before),
                decimal(bytes@[at as int] as nat),
                seq![',', ' '],
            );
        }
        if at > 0 {
            list.append(", ");
        }
        let numeral = u64_to_string(bytes[at] as u64);
        list.append(numeral.as_str());
        at += 1;
    }
    proof {
        assert(bytes@.take(at as int) =~= bytes@);
    }
    let mut text = String::from_str("[");
    text.append(list.as_str());
    text.append("]");
    text
}

impl UsnReaderError {
    /// What the message says of an error that does not come from std.
    pub open spec fn spec_message(&self) -> Seq<char>
        recommends
            !(self is IO),
    {
        match self {
            UsnReaderError::IO(_) => "IO Error: "@,
            UsnReaderError::MalformedRecord(what) => "Syntax Error: "@ + what@,
            UsnReaderError::UnsupportedJournalVersion(version) => "unsupported journal version: "@
                + decimal(*version as nat),
            UsnReaderError::FailedToReadWindowsTime(bytes) => "failed to read windows time: "@
                + bytes_text(bytes@),
            UsnReaderError::NoMoreData => "no more data"@,
        }
    }

    /// The error in words. For an error of std the words are "IO Error: "
    /// and what std says of it.
    pub fn message(&self) -> (text: String)
        ensures
            !(self is IO) ==> text@ == self.spec_message(),
            self is IO ==> text@.len() >= "IO Error: "@.len() && text@.take(
                "IO Error: "@.len() as int,
            ) == "IO Error: "@,
    {
        match self {
            UsnReaderError::IO(error) => {
                let mut text = String::from_str("IO Error: ");
                let ghost head = text@;
                let said = io_error_text(error);
                text.append(said.as_str());
                assert(text@.take(head.len() as int) =~= head);
                text
            },
            UsnReaderError::MalformedRecord(what) => {
                let mut text = String::from_str("Syntax Error: ");
                text.append(what.as_str());
                text
            },
            UsnReaderError::UnsupportedJournalVersion(version) => {
                let mut text = String::from_str("unsupported journal version: ");
                let numeral = u64_to_string(*version as u64);
                text.append(numeral.as_str());
                text
            },
            UsnReaderError::FailedToReadWindowsTime(bytes) => {
                let mut text = String::from_str("failed to read windows time: ");
                let list = bytes_to_string(bytes);
                text.append(list.as_str());
                text
            },
            UsnReaderError::NoMoreData => String::from_str("no more data"),
        }
    }
}

impl From<std::io::Error> for UsnReaderError {
    fn from(err: std::io::Error) -> (error: Self) {
        UsnReaderError::IO(err)
    }
}

impl FromSpecImpl<std::io::Error> for UsnReaderError {
    open spec fn obeys_from_spec() -> bool {
        true
    }

    open spec fn from_spec(err: std::io::Error) -> Self {
        UsnReaderError::IO(err)
    }
}

} // verus!
