//! Absolute load files (ALF): the contents of EC memory before execution.
use vstd::prelude::*;

use crate::alf::hex::{
    all_hex, chars_of, hex_number, is_hex, lemma_hex_number_bound, parse_u16_radix16, pow16,
    radix16_u16,
};
use crate::alf::record::{record_line_readable, record_line_valid, record_of, Record};
use crate::cpu::instruction::Address;

pub mod data_triple;
pub mod hex;
pub mod record;

verus! {

/// Why an ALF was refused.
#[derive(Debug, Clone, Copy, PartialEq, Eq)]
pub enum AlfError {
    /// The ALF holds no line at all.
    Empty,
    /// The last line is not an END record.
    MissingEnd,
    /// The END record holds no valid start address.
    InvalidStartAddress,
    /// A record line does not match its checksum.
    InvalidRecordLine,
    /// The records' sequence numbers are not 0, 1, 2, ...
    NonConsecutiveSequenceNumbers,
}


/// ALF - absolute load file, which describes the contents of computer memory
/// prior to execution.
pub struct Alf {
    pub records: Vec<Record>,
    pub start_address: Address,
}

/// Whether a line is an END record.
pub open spec fn is_end_record(s: Seq<char>) -> bool {
    s.len() >= 3 && s[0] == 'E' && s[1] == 'N' && s[2] == 'D'
}

/// The start address that an END record holds, in hexadecimal after `END`.
pub open spec fn start_address_of(end_record: Seq<char>) -> Option<u16> {
    radix16_u16(end_record.skip(3))
}

/// Whether the record lines from `k` on can be read, up to and including
/// the first that is invalid.
pub open spec fn record_lines_readable(lines: Seq<Seq<char>>, k: int) -> bool
    decreases lines.len() - k,
{
    if k < 0 || k >= lines.len() {
        true
    } else {
        record_line_readable(lines[k]) && (record_line_valid(lines[k]) ==> record_lines_readable(
            lines,
            k + 1,
        ))
    }
}

/// Whether `Alf::from` can read `lines` without failing: wherever the last
/// line is an END record with a valid start address, the record lines before
/// it can be read.
pub open spec fn alf_readable(lines: Seq<Seq<char>>) -> bool {
    lines.len() > 0 && is_end_record(lines.last()) && start_address_of(lines.last()) is Some
        ==> record_lines_readable(lines.drop_last(), 0)
}

/// What `Alf::from` gives for `lines`: the records and the start address, or
/// the first reason to refuse them.
pub open spec fn alf_of(lines: Seq<Seq<char>>) -> Result<
    (Seq<(u32, Seq<(u8, u32, Seq<u8>)>)>, u16),
    AlfError,
> {
    if lines.len() == 0 {
        Err(AlfError::Empty)
    } else if !is_end_record(lines.last()) {
        Err(AlfError::MissingEnd)
    } else {
        match start_address_of(lines.last()) {
            None => Err(AlfError::InvalidStartAddress),
            Some(start) => {
                let body = lines.drop_last();
                if exists|k: int| 0 <= k < body.len() && !#[trigger] record_line_valid(body[k]) {
                    Err(AlfError::InvalidRecordLine)
                } else if exists|k: int|
                    0 <= k < body.len() && #[trigger] record_of(body[k]).0 != k as u32 {
                    Err(AlfError::NonConsecutiveSequenceNumbers)
                } else {
                    Ok((body.map_values(|l: Seq<char>| record_of(l)), start))
                }
            },
        }
    }
}

/// The characters of each line.
pub open spec fn lines_view(lines: Seq<String>) -> Seq<Seq<char>> {
    lines.map_values(|l: String| l@)
}

/// The view of each record.
pub open spec fn records_view(records: Seq<Record>) -> Seq<(u32, Seq<(u8, u32, Seq<u8>)>)> {
    records.map_values(|r: Record| r@)
}

impl Alf {
    fn read_start_address(end_record: &Vec<char>) -> (r: Option<Address>)
        requires
            end_record@.len() >= 3,
        ensures
            r == start_address_of(end_record@),
    {
        assert(end_record@.subrange(3, end_record@.len() as int) =~= end_record@.skip(3));
        parse_u16_radix16(end_record, 3, end_record.len())
    }

    fn assert_sequence_numbers(records: &Vec<Record>) -> (r: bool)
        ensures
            r == forall|k: int| 0 <= k < records@.len() ==> #[trigger] records@[k].sequence_number == k as u32,
    {
        let n = records.len();
        let mut i: usize = 0;
        while i < n
            invariant
                n == records@.len(),
                i <= n,
                forall|k: int| 0 <= k < i ==> #[trigger] records@[k].sequence_number == k as u32,
            decreases n - i,
        {
            if records[i].sequence_number != i as u32 {
                return false;
            }
            i += 1;
        }
        true
    }

    /// Whether `Alf::from` can read `lines` without failing.
    pub fn can_read(lines: &Vec<String>) -> (r: bool)
        ensures
            r == alf_readable(lines_view(lines@)),
    {
        let ghost all = lines_view(lines@);
        let n = lines.len();
        if n == 0 {
            return true;
        }
        let end_chars = chars_of(lines[n - 1].as_str());
        assert(end_chars@ == all.last());
        if !(end_chars.len() >= 3 && end_chars[0] == 'E' && end_chars[1] == 'N' && end_chars[2]
            == 'D') {
            return true;
        }
        if Alf::read_start_address(&end_chars).is_none() {
            return true;
        }
        let ghost body = all.drop_last();
        let mut k: usize = 0;
        while k < n - 1
            invariant
                n == lines@.len() == all.len(),
                all == lines_view(lines@),
                body == all.drop_last(),
                k <= n - 1,
                alf_readable(all) == record_lines_readable(body, k as int),
            decreases n - 1 - k,
        {
            let chars = chars_of(lines[k].as_str());
            assert(chars@ == body[k as int]);
            if !Record::chars_readable(&chars) {
                return false;
            }
            if !Record::is_valid(&chars) {
                return true;
            }
            k += 1;
        }
        true
    }

    /// Reads an ALF from its lines; the last line is the END record.
    pub fn from(lines: Vec<String>) -> (r: Result<Alf, AlfError>)
        requires
            alf_readable(lines_view(lines@)),
        ensures
            match alf_of(lines_view(lines@)) {
                Ok((records, start)) => r matches Ok(alf) && records_view(alf.records@) == records
                    && alf.start_address == start,
                Err(e) => r == Err::<Alf, AlfError>(e),
            },
    {
        let ghost all = lines_view(lines@);
        let mut record_lines = lines;
        let end_record = match record_lines.pop() {
            Some(end_record) => end_record,
            None => {
                return Err(AlfError::Empty);
            },
        };
        let ghost body = all.drop_last();
        assert(lines_view(record_lines@) =~= body);
        assert(end_record@ == all.last());
        let end_chars = chars_of(end_record.as_str());
        if !(end_chars.len() >= 3 && end_chars[0] == 'E' && end_chars[1] == 'N' && end_chars[2]
            == 'D') {
            return Err(AlfError::MissingEnd);
        }
        let start_address = match Alf::read_start_address(&end_chars) {
            Some(address) => address,
            None => {
                return Err(AlfError::InvalidStartAddress);
            },
        };
        let n = record_lines.len();
        let mut records: Vec<Record> = Vec::new();
        let mut k: usize = 0;
        while k < n
            invariant
                all.len() > 0,
                body == all.drop_last(),
                is_end_record(all.last()),
                start_address_of(all.last()) == Some(start_address),
                n == record_lines@.len() == body.len(),
                all == lines_view(lines@),
                lines_view(record_lines@) == body,
                k <= n,
                record_lines_readable(body, k as int),
                forall|j: int| 0 <= j < k ==> #[trigger] record_line_valid(body[j]),
                records_view(records@) == body.take(k as int).map_values(|l: Seq<char>| record_of(l)),
            decreases n - k,
        {
            let line = record_lines[k].clone();
            assert(line@ == body[k as int]);
            let record = match Record::from(line) {
                Ok(record) => record,
                Err(e) => {
                    assert(!record_line_valid(body[k as int]));
                    return Err(e);
                },
            };
            let ghost before = records_view(records@);
            records.push(record);
            proof {
                assert(records_view(records@) =~= before.push(record@));
                assert(body.take(k + 1).map_values(|l: Seq<char>| record_of(l)) =~= body.take(
                    k as int,
                ).map_values(|l: Seq<char>| record_of(l)).push(record_of(body[k as int])));
            }
            k += 1;
        }
        assert(body.take(n as int) =~= body);
        if Alf::assert_sequence_numbers(&records) {
            assert forall|j: int| 0 <= j < body.len() implies #[trigger] record_of(body[j]).0 == j as u32 by {
                assert(records_view(records@)[j] == record_of(body[j]));
                assert(records@[j].sequence_number == j as u32);
            }
            Ok(Alf { records, start_address })
        } else {
            let ghost j = choose|j: int| 0 <= j < records@.len() && !(#[trigger] records@[j].sequence_number == j as u32);
            assert(records_view(records@)[j] == record_of(body[j]));
            assert(body.len() == records@.len());
            assert(0 <= j < body.len() && record_of(body[j]).0 != j as u32);
            Err(AlfError::NonConsecutiveSequenceNumbers)
        }
    }
}

proof fn lemma_lines_readable(lines: Seq<Seq<char>>, j: int, k: int)
    requires
        0 <= j <= k < lines.len(),
        record_lines_readable(lines, j),
        forall|i: int| 0 <= i < lines.len() ==> #[trigger] record_line_valid(lines[i]),
    ensures
        record_line_readable(lines[k]),
    decreases k - j,
{
    if j < k {
        lemma_lines_readable(lines, j + 1, k);
    }
}

/// An ALF holds at most 4096 records: sequence numbers have three hexadecimal
/// digits and count up from 0.
pub proof fn lemma_at_most_4096_records(lines: Seq<Seq<char>>)
    requires
        alf_readable(lines),
        alf_of(lines) is Ok,
    ensures
        alf_of(lines).unwrap().0.len() <= 4096,
{
    let body = lines.drop_last();
    if body.len() > 4096 {
        let s = body[4096];
        assert(record_line_valid(s));
        lemma_lines_readable(body, 0, 4096);
        let digits = s.subrange(1, 4);
        assert forall|i: int| 0 <= i < digits.len() implies #[trigger] is_hex(digits[i]) by {
            assert(digits[i] == s.skip(1)[i]);
        }
        lemma_hex_number_bound(digits);
        assert(pow16(3) == 4096) by {
            reveal_with_fuel(pow16, 4);
        }
        assert(record_of(s).0 == 4096 as u32);
    }
}

} // verus!
