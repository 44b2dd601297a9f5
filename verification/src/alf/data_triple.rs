//! A data triple: a run of characters to be placed at some address.
use vstd::prelude::*;

use crate::alf::hex::{
    all_hex, chars_of, is_hex, lemma_hex_number_bound, lemma_radix16_of_digits, parse_u16_radix16,
    pow16, radix16_u16,
};

verus! {

/// Number of hexadecimal digits of a data triple's address.
pub const ADDRESS_LENGTH: usize = 4;

/// Number of hexadecimal digits of one data field.
pub const DATA_FIELD_LENGTH: usize = 2;

/// `count` characters of data to be placed from `address` on.
pub struct DataTriple {
    pub count: u8,
    pub address: u32,
    pub data_fields: Vec<u8>,
}

impl View for DataTriple {
    type V = (u8, u32, Seq<u8>);

    open spec fn view(&self) -> (u8, u32, Seq<u8>) {
        (self.count, self.address, self.data_fields@)
    }
}

/// The characters of data field `k` of `chunk`.
pub open spec fn field_chars(chunk: Seq<char>, k: int) -> Seq<char> {
    chunk.subrange(ADDRESS_LENGTH + DATA_FIELD_LENGTH * k, ADDRESS_LENGTH + DATA_FIELD_LENGTH * (k
        + 1))
}

/// Whether `chunk` starts with a four-character address and `count`
/// two-character data fields that `from_str_radix` reads in base 16 (each an
/// optional `+` followed by hexadecimal digits).
pub open spec fn triple_chunk_ok(chunk: Seq<char>, count: u8) -> bool {
    &&& chunk.len() >= ADDRESS_LENGTH + DATA_FIELD_LENGTH * count
    &&& radix16_u16(chunk.take(ADDRESS_LENGTH as int)) is Some
    &&& forall|k: int| 0 <= k < count ==> #[trigger] radix16_u16(field_chars(chunk, k)) is Some
}

/// The value of data field `k` of `chunk`.
pub open spec fn data_field(chunk: Seq<char>, k: int) -> u8 {
    radix16_u16(field_chars(chunk, k)).unwrap() as u8
}

/// The data triple that `chunk` describes.
pub open spec fn triple_view(chunk: Seq<char>, count: u8) -> (u8, u32, Seq<u8>) {
    (
        count,
        radix16_u16(chunk.take(ADDRESS_LENGTH as int)).unwrap() as u32,
        Seq::new(count as nat, |k: int| data_field(chunk, k)),
    )
}

/// A two-character field that `from_str_radix` reads has a value below 256.
proof fn lemma_field_small(d: Seq<char>)
    requires
        d.len() == 2,
        radix16_u16(d) is Some,
    ensures
        radix16_u16(d).unwrap() < 256,
{
    let digits = if d.len() > 0 && d[0] == '+' {
        d.skip(1)
    } else {
        d
    };
    lemma_hex_number_bound(digits);
    assert(pow16(digits.len()) <= 256) by {
        reveal_with_fuel(pow16, 3);
    }
}

/// A chunk of hexadecimal digits only, of the length of its triple, can be
/// read.
pub(crate) proof fn lemma_hex_chunk_ok(chunk: Seq<char>, count: u8)
    requires
        chunk.len() == ADDRESS_LENGTH + DATA_FIELD_LENGTH * count,
        all_hex(chunk),
    ensures
        triple_chunk_ok(chunk, count),
{
    let a = chunk.take(ADDRESS_LENGTH as int);
    assert forall|i: int| 0 <= i < a.len() implies #[trigger] is_hex(a[i]) by {
        assert(a[i] == chunk[i]);
    }
    lemma_radix16_of_digits(a);
    assert forall|k: int| 0 <= k < count implies #[trigger] radix16_u16(field_chars(chunk, k)) is Some by {
        let f = field_chars(chunk, k);
        assert forall|i: int| 0 <= i < f.len() implies #[trigger] is_hex(f[i]) by {
            assert(f[i] == chunk[ADDRESS_LENGTH + DATA_FIELD_LENGTH * k + i]);
        }
        lemma_radix16_of_digits(f);
    }
}

impl DataTriple {
    /// Creates a DataTriple from a string holding 4 characters of address
    /// followed by `count` data fields of 2 characters each, all read in
    /// base 16.
    pub fn from(count: u8, data_triple_chunk: &str) -> (t: DataTriple)
        requires
            triple_chunk_ok(data_triple_chunk@, count),
        ensures
            t@ == triple_view(data_triple_chunk@, count),
    {
        let chars = chars_of(data_triple_chunk);
        let ghost s = chars@;
        assert(s.subrange(0, ADDRESS_LENGTH as int) =~= s.take(ADDRESS_LENGTH as int));
        let address = parse_u16_radix16(&chars, 0, ADDRESS_LENGTH).unwrap() as u32;
        let mut data_fields: Vec<u8> = Vec::new();
        let mut k: usize = 0;
        while k < count as usize
            invariant
                s == data_triple_chunk@,
                chars@ == s,
                triple_chunk_ok(s, count),
                k <= count,
                data_fields@ == Seq::new(k as nat, |j: int| data_field(s, j)),
            decreases count - k,
        {
            let from = ADDRESS_LENGTH + DATA_FIELD_LENGTH * k;
            assert(radix16_u16(field_chars(s, k as int)) is Some);
            let field = parse_u16_radix16(&chars, from, from + DATA_FIELD_LENGTH).unwrap();
            proof {
                lemma_field_small(field_chars(s, k as int));
            }
            data_fields.push(field as u8);
            k += 1;
            assert(data_fields@ =~= Seq::new(k as nat, |j: int| data_field(s, j)));
        }
        DataTriple { count, address, data_fields }
    }
}

} // verus!
