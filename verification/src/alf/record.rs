//! A record: one line of an ALF other than the last.
use vstd::prelude::*;
use vstd::string::*;

use crate::alf::data_triple::{lemma_hex_chunk_ok, triple_view, DataTriple, ADDRESS_LENGTH};
use crate::alf::hex::{
    all_hex, chars_of, digit, digit_sum, hex_digit, hex_number, hex_value, is_hex, parse_hex,
    pow16,
};
use crate::alf::AlfError;

verus! {

/// Number of characters of the checksum field.
pub const CHECKSUM_LENGTH: usize = 1;

/// Index of the first data triple of a record line.
pub const TRIPLES_INDEX: usize = 4;

/// Record is a basic unit of absolute load file (ALF)
pub struct Record {
    pub sequence_number: u32,
    pub data_triples: Vec<DataTriple>,
}

impl View for Record {
    type V = (u32, Seq<(u8, u32, Seq<u8>)>);

    open spec fn view(&self) -> (u32, Seq<(u8, u32, Seq<u8>)>) {
        (self.sequence_number, self.data_triples@.map_values(|t: DataTriple| t@))
    }
}

/// The checksum of a record line: the sum of its digits after the first,
/// modulo 16.
pub open spec fn line_checksum(s: Seq<char>) -> nat {
    digit_sum(s.skip(1)) % 16
}

/// Whether a record line is valid: its first character is a hexadecimal
/// digit equal to the checksum of the rest.
pub open spec fn record_line_valid(s: Seq<char>) -> bool {
    &&& s.len() > 0
    &&& is_hex(s[0])
    &&& digit(s[0]) == line_checksum(s)
}

/// The length of the data triple that starts at `i`: a count digit, four
/// address digits and two digits per data field.
pub open spec fn triple_len(s: Seq<char>, i: int) -> int {
    CHECKSUM_LENGTH + ADDRESS_LENGTH + 2 * digit(s[i])
}

/// Whether the data triples from `i` on each lie wholly within the line.
pub open spec fn triples_fit(s: Seq<char>, i: int) -> bool
    decreases s.len() - i,
{
    if i < 0 || i >= s.len() {
        true
    } else {
        proof {
            assert(triple_len(s, i) >= 5);
        }
        i + triple_len(s, i) <= s.len() && triples_fit(s, i + triple_len(s, i))
    }
}

/// The data triples of a line, from index `i` on.
pub open spec fn triples_from(s: Seq<char>, i: int) -> Seq<(u8, u32, Seq<u8>)>
    decreases s.len() - i,
{
    if i < 0 || i >= s.len() {
        Seq::empty()
    } else {
        let next = i + triple_len(s, i);
        let triple = triple_view(s.subrange(i + 1, next), digit(s[i]) as u8);
        if next >= s.len() {
            seq![triple]
        } else {
            seq![triple] + triples_from(s, next)
        }
    }
}

/// The record that a valid line describes: the sequence number in digits
/// 1 to 3, then the data triples.
pub open spec fn record_of(s: Seq<char>) -> (u32, Seq<(u8, u32, Seq<u8>)>) {
    (hex_number(s.subrange(1, 4)) as u32, triples_from(s, TRIPLES_INDEX as int))
}

/// Whether `Record::from` can read the line without failing: the line is not
/// empty; if it starts with a hexadecimal digit, the rest are hexadecimal
/// digits whose sum fits a `u32`; and if the checksum then matches, the line
/// holds a sequence number and data triples that lie within it.
pub open spec fn record_line_readable(s: Seq<char>) -> bool {
    &&& s.len() > 0
    &&& is_hex(s[0]) ==> {
        &&& all_hex(s.skip(1))
        &&& digit_sum(s.skip(1)) <= u32::MAX
        &&& digit(s[0]) == line_checksum(s) ==> s.len() >= 4 && triples_fit(s, TRIPLES_INDEX as int)
    }
}

proof fn lemma_digit_sum_step(s: Seq<char>, i: int)
    requires
        0 <= i < s.len(),
    ensures
        digit_sum(s.take(i + 1)) == digit_sum(s.take(i)) + digit(s[i]),
{
    assert(s.take(i + 1).drop_last() =~= s.take(i));
}

proof fn lemma_digit_sum_prefix(s: Seq<char>, k: int)
    requires
        0 <= k <= s.len(),
    ensures
        digit_sum(s.take(k)) <= digit_sum(s),
    decreases s.len(),
{
    if k < s.len() {
        lemma_digit_sum_prefix(s.drop_last(), k);
        assert(s.drop_last().take(k) =~= s.take(k));
    } else {
        assert(s.take(k) =~= s);
    }
}

proof fn lemma_hex_range(s: Seq<char>, start: int, end: int)
    requires
        all_hex(s.skip(1)),
        1 <= start <= end <= s.len(),
    ensures
        all_hex(s.subrange(start, end)),
{
    assert forall|i: int| 0 <= i < end - start implies #[trigger] is_hex(s.subrange(start, end)[i]) by {
        assert(s.subrange(start, end)[i] == s.skip(1)[start + i - 1]);
    }
}

impl Record {
    pub fn from(record_line: String) -> (r: Result<Record, AlfError>)
        requires
            record_line_readable(record_line@),
        ensures
            r is Ok <==> record_line_valid(record_line@),
            r is Err ==> r == Err::<Record, AlfError>(AlfError::InvalidRecordLine),
            r matches Ok(record) ==> record@ == record_of(record_line@),
    {
        let chars = chars_of(record_line.as_str());
        if !Record::is_valid(&chars) {
            return Err(AlfError::InvalidRecordLine);
        }
        let sequence_number = match Record::read_sequence_number(&chars) {
            Some(n) => n,
            None => 0,
        };
        let data_triples = Record::read_data_triples(record_line.as_str(), &chars);
        Ok(Record { sequence_number, data_triples })
    }

    fn read_checksum(chars: &Vec<char>) -> (r: Option<u32>)
        requires
            chars@.len() > 0,
        ensures
            r == hex_value(chars@[0]),
    {
        hex_digit(chars[0])
    }

    fn read_sequence_number(chars: &Vec<char>) -> (r: Option<u32>)
        requires
            chars@.len() >= 4,
            all_hex(chars@.skip(1)),
        ensures
            r == Some(hex_number(chars@.subrange(1, 4)) as u32),
    {
        proof {
            lemma_hex_range(chars@, 1, 4);
        }
        Some(parse_hex(chars, 1, 4))
    }

    fn read_data_triples(record_line: &str, chars: &Vec<char>) -> (r: Vec<DataTriple>)
        requires
            chars@ == record_line@,
            all_hex(chars@.skip(1)),
            triples_fit(chars@, TRIPLES_INDEX as int),
        ensures
            r@.map_values(|t: DataTriple| t@) == triples_from(chars@, TRIPLES_INDEX as int),
    {
        let ghost s = chars@;
        let n = chars.len();
        let mut i: usize = TRIPLES_INDEX;
        let mut data_triples: Vec<DataTriple> = Vec::new();
        while i < n
            invariant
                s == chars@,
                s == record_line@,
                n == s.len(),
                all_hex(s.skip(1)),
                TRIPLES_INDEX <= i,
                triples_fit(s, i as int),
                data_triples@.map_values(|t: DataTriple| t@) + triples_from(s, i as int)
                    == triples_from(s, TRIPLES_INDEX as int),
            decreases n - i,
        {
            assert(is_hex(s.skip(1)[i - 1]));
            let count = hex_digit(chars[i]).unwrap();
            let chunk_length: usize = ADDRESS_LENGTH + 2 * (count as usize);
            let next = i + CHECKSUM_LENGTH + chunk_length;
            let chunk = record_line.substring_char(i + 1, i + 1 + chunk_length);
            proof {
                lemma_hex_range(s, i + 1, i + 1 + chunk_length);
                lemma_hex_chunk_ok(chunk@, count as u8);
            }
            let triple = DataTriple::from(count as u8, chunk);
            let ghost before = data_triples@.map_values(|t: DataTriple| t@);
            data_triples.push(triple);
            proof {
                assert(data_triples@.map_values(|t: DataTriple| t@) =~= before.push(triple@));
                assert(triples_from(s, i as int) == seq![triple@] + triples_from(s, next as int));
                assert(before.push(triple@) + triples_from(s, next as int) =~= before + (seq![triple@]
                    + triples_from(s, next as int)));
            }
            i = next;
        }
        assert(triples_from(s, i as int) =~= Seq::empty());
        assert(data_triples@.map_values(|t: DataTriple| t@) + triples_from(s, i as int)
            =~= data_triples@.map_values(|t: DataTriple| t@));
        data_triples
    }

    fn calculate_checksum(chars: &Vec<char>) -> (r: u32)
        requires
            chars@.len() > 0,
            all_hex(chars@.skip(1)),
            digit_sum(chars@.skip(1)) <= u32::MAX,
        ensures
            r == line_checksum(chars@),
    {
        let ghost rest = chars@.skip(1);
        let n = chars.len();
        let mut sum: u32 = 0;
        let mut i: usize = 1;
        while i < n
            invariant
                1 <= i <= n == chars@.len(),
                rest == chars@.skip(1),
                all_hex(rest),
                digit_sum(rest) <= u32::MAX,
                sum == digit_sum(rest.take(i - 1)),
            decreases n - i,
        {
            assert(is_hex(rest[i - 1]));
            let d = hex_digit(chars[i]).unwrap();
            proof {
                lemma_digit_sum_step(rest, i - 1);
                lemma_digit_sum_prefix(rest, i as int);
            }
            sum = sum + d;
            i += 1;
        }
        assert(rest.take(n - 1) =~= rest);
        sum % 16
    }

    pub(crate) fn is_valid(chars: &Vec<char>) -> (r: bool)
        requires
            record_line_readable(chars@),
        ensures
            r == record_line_valid(chars@),
    {
        match Record::read_checksum(chars) {
            Some(checksum) => checksum == Record::calculate_checksum(chars),
            None => false,
        }
    }
}

impl Record {
    /// Whether `Record::from` can read `record_line` without failing.
    pub fn can_read(record_line: &String) -> (r: bool)
        ensures
            r == record_line_readable(record_line@),
    {
        let chars = chars_of(record_line.as_str());
        Record::chars_readable(&chars)
    }

    pub(crate) fn chars_readable(chars: &Vec<char>) -> (r: bool)
        ensures
            r == record_line_readable(chars@),
    {
        let ghost s = chars@;
        let ghost rest = s.skip(1);
        let n = chars.len();
        if n == 0 {
            return false;
        }
        let first = match hex_digit(chars[0]) {
            Some(d) => d,
            None => {
                return true;
            },
        };
        let mut sum: u32 = 0;
        let mut i: usize = 1;
        while i < n
            invariant
                1 <= i <= n == s.len(),
                s == chars@,
                rest == s.skip(1),
                hex_value(s[0]) == Some(first),
                all_hex(rest.take(i - 1)),
                sum == digit_sum(rest.take(i - 1)),
            decreases n - i,
        {
            let d = match hex_digit(chars[i]) {
                Some(d) => d,
                None => {
                    assert(!is_hex(rest[i - 1]));
                    return false;
                },
            };
            proof {
                lemma_digit_sum_step(rest, i - 1);
                assert(rest.take(i as int) =~= rest.take(i - 1).push(rest[i - 1]));
            }
            if sum > u32::MAX - d {
                proof {
                    assert(all_hex(rest.take(i as int)));
                    if all_hex(rest) {
                        lemma_digit_sum_prefix(rest, i as int);
                    }
                }
                return false;
            }
            sum = sum + d;
            i += 1;
        }
        assert(rest.take(n - 1) =~= rest);
        if first != sum % 16 {
            return true;
        }
        if n < 4 {
            return false;
        }
        let mut j: usize = TRIPLES_INDEX;
        while j < n
            invariant
                n == s.len(),
                s == chars@,
                rest == s.skip(1),
                all_hex(rest),
                is_hex(s[0]),
                digit_sum(rest) <= u32::MAX,
                digit(s[0]) == line_checksum(s),
                n >= 4,
                TRIPLES_INDEX <= j,
                triples_fit(s, TRIPLES_INDEX as int) == triples_fit(s, j as int),
            decreases n - j,
        {
            assert(is_hex(rest[j - 1]));
            let count = hex_digit(chars[j]).unwrap() as usize;
            if count * 2 + CHECKSUM_LENGTH + ADDRESS_LENGTH > n - j {
                return false;
            }
            j = j + CHECKSUM_LENGTH + ADDRESS_LENGTH + count * 2;
        }
        true
    }
}

} // verus!
