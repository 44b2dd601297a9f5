//! The memory of the EC: a fixed array of characters (bytes).  Words are four
//! consecutive characters, most significant first; the general purpose
//! registers occupy the first sixteen words.
use vstd::prelude::*;

use crate::alf::data_triple::DataTriple;
use crate::alf::record::Record;
use crate::alf::{records_view, Alf};

verus! {

/// Number of characters of EC memory.
pub const SIZE: usize = 8096;

/// The signed word whose four characters, most significant first, are
/// `b0 b1 b2 b3`.
pub open spec fn word_from_bytes(b0: u8, b1: u8, b2: u8, b3: u8) -> i32 {
    (((b0 as u32) << 24u32) | ((b1 as u32) << 16u32) | ((b2 as u32) << 8u32) | (b3 as u32)) as i32
}

/// The character of `v` that lies `shift` bits above its least significant end.
pub open spec fn word_byte(v: i32, shift: u32) -> u8 {
    ((v as u32) >> shift) as u8
}

/// Whether the four characters of a word starting at `a` lie in memory.
pub open spec fn word_in_memory(a: int) -> bool {
    0 <= a && a + 4 <= SIZE
}

/// The word stored at `a` in the memory contents `m`.
pub open spec fn word_at(m: Seq<u8>, a: int) -> i32 {
    word_from_bytes(m[a], m[a + 1], m[a + 2], m[a + 3])
}

/// The memory contents `m` with the word `v` stored at `a`.
pub open spec fn with_word(m: Seq<u8>, a: int, v: i32) -> Seq<u8> {
    m.update(a, word_byte(v, 24)).update(a + 1, word_byte(v, 16)).update(a + 2, word_byte(v, 8)).update(
        a + 3,
        word_byte(v, 0),
    )
}

/// The unsigned value of general purpose register `index`.
pub open spec fn gpr_at(m: Seq<u8>, index: int) -> u32 {
    let a = 4 * index;
    (((m[a] as u32) << 24u32) | ((m[a + 1] as u32) << 16u32) | ((m[a + 2] as u32) << 8u32) | (
    m[a + 3] as u32)) as u32
}

/// The memory contents `m` after `set_gpr(index, value)`: the three high
/// characters of the register become zero and the low one takes the low
/// eight bits of `value` (each character keeps only the bits of its own
/// position that fall into its low eight bits).
pub open spec fn with_gpr(m: Seq<u8>, index: int, value: u32) -> Seq<u8> {
    let a = 4 * index;
    m.update(a, 0u8).update(a + 1, 0u8).update(a + 2, 0u8).update(a + 3, (value & 0xff) as u8)
}

/// The memory contents `m` with the data of the triple `t` placed from its
/// address on.
pub open spec fn write_triple(m: Seq<u8>, t: (u8, u32, Seq<u8>)) -> Seq<u8> {
    Seq::new(
        m.len(),
        |j: int|
            if t.1 <= j < t.1 + t.2.len() {
                t.2[j - t.1]
            } else {
                m[j]
            },
    )
}

/// The memory contents `m` with the triples `ts` placed in order.
pub open spec fn write_triples(m: Seq<u8>, ts: Seq<(u8, u32, Seq<u8>)>) -> Seq<u8>
    decreases ts.len(),
{
    if ts.len() == 0 {
        m
    } else {
        write_triple(write_triples(m, ts.drop_last()), ts.last())
    }
}

/// The memory contents `m` with the records `rs` applied in order.
pub open spec fn load_records(m: Seq<u8>, rs: Seq<(u32, Seq<(u8, u32, Seq<u8>)>)>) -> Seq<u8>
    decreases rs.len(),
{
    if rs.len() == 0 {
        m
    } else {
        write_triples(load_records(m, rs.drop_last()), rs.last().1)
    }
}

/// Whether every character of the triple `t` has an address in memory.
pub open spec fn triple_fits(t: (u8, u32, Seq<u8>)) -> bool {
    t.2.len() == 0 || t.1 + t.2.len() <= SIZE
}

/// Whether every character of every record has an address in memory.
pub open spec fn records_fit(rs: Seq<(u32, Seq<(u8, u32, Seq<u8>)>)>) -> bool {
    forall|i: int, j: int|
        0 <= i < rs.len() && 0 <= j < rs[i].1.len() ==> #[trigger] triple_fits(rs[i].1[j])
}

/// Memory with every character zero.
pub open spec fn zeroed() -> Seq<u8> {
    Seq::new(SIZE as nat, |i: int| 0u8)
}

pub struct Memory {
    mem: [u8; SIZE],
}

impl Memory {
    /// The contents of memory, one character per address.
    pub closed spec fn view(&self) -> Seq<u8> {
        self.mem@
    }

    /// Memory always holds exactly `SIZE` characters.
    pub broadcast proof fn lemma_view_len(m: &Memory)
        ensures
            #[trigger] m@.len() == SIZE,
    {
    }

    /// Memory with every character zero.
    pub fn new() -> (m: Memory)
        ensures
            m@ == Seq::new(SIZE as nat, |i: int| 0u8),
    {
        let m = Memory { mem: [0u8; SIZE] };
        assert(m@ =~= Seq::new(SIZE as nat, |i: int| 0u8));
        m
    }

    /// Memory holding what the records of `alf` place in it, zero elsewhere.
    pub fn from(alf: &Alf) -> (m: Memory)
        requires
            records_fit(records_view(alf.records@)),
        ensures
            m@ == load_records(zeroed(), records_view(alf.records@)),
    {
        let mut mem: Memory = Memory::new();
        let ghost rs = records_view(alf.records@);
        let n = alf.records.len();
        let mut k: usize = 0;
        while k < n
            invariant
                n == alf.records@.len() == rs.len(),
                rs == records_view(alf.records@),
                records_fit(rs),
                k <= n,
                mem@ == load_records(zeroed(), rs.take(k as int)),
            decreases n - k,
        {
            assert(alf.records@[k as int]@ == rs[k as int]);
            mem.apply_record(&alf.records[k]);
            assert(rs.take(k + 1).drop_last() =~= rs.take(k as int));
            k += 1;
        }
        assert(rs.take(n as int) =~= rs);
        mem
    }

    /// Whether `Memory::from(alf)` can place every character of `alf`.
    pub fn can_load(alf: &Alf) -> (r: bool)
        ensures
            r == records_fit(records_view(alf.records@)),
    {
        let ghost rs = records_view(alf.records@);
        let n = alf.records.len();
        let mut i: usize = 0;
        while i < n
            invariant
                n == alf.records@.len() == rs.len(),
                rs == records_view(alf.records@),
                i <= n,
                forall|a: int, j: int|
                    0 <= a < i && 0 <= j < rs[a].1.len() ==> #[trigger] triple_fits(rs[a].1[j]),
            decreases n - i,
        {
            let triples = &alf.records[i].data_triples;
            let mut j: usize = 0;
            while j < triples.len()
                invariant
                    n == alf.records@.len() == rs.len(),
                    rs == records_view(alf.records@),
                    i < n,
                    triples == &alf.records@[i as int].data_triples,
                    j <= triples@.len(),
                    forall|a: int, b: int|
                        0 <= a < i && 0 <= b < rs[a].1.len() ==> #[trigger] triple_fits(rs[a].1[b]),
                    forall|b: int| 0 <= b < j ==> #[trigger] triple_fits(rs[i as int].1[b]),
                decreases triples@.len() - j,
            {
                let t = &triples[j];
                assert(rs[i as int].1[j as int] == t@);
                let len = t.data_fields.len();
                if len != 0 && (t.address as usize > SIZE || len > SIZE - t.address as usize) {
                    assert(!triple_fits(rs[i as int].1[j as int]));
                    return false;
                }
                j += 1;
            }
            i += 1;
        }
        true
    }

    pub fn get(&self, address: usize) -> (value: u8)
        requires
            address < SIZE,
        ensures
            value == self@[address as int],
    {
        self.mem[address]
    }

    pub fn set(&mut self, address: usize, value: u8)
        requires
            address < SIZE,
        ensures
            final(self)@ == old(self)@.update(address as int, value),
    {
        self.mem[address] = value;
    }

    /// The word held by register `address` (the word at `4 * address`).
    pub fn read_reg(&self, address: usize) -> (value: i32)
        requires
            word_in_memory(4 * address),
        ensures
            value == word_at(self@, 4 * address),
    {
        self.read_word(address * 4)
    }

    /// Stores `value` in register `address` (the word at `4 * address`).
    pub fn write_reg(&mut self, address: usize, value: i32)
        requires
            word_in_memory(4 * address),
        ensures
            final(self)@ == with_word(old(self)@, 4 * address, value),
    {
        self.write_word(address * 4, value);
    }

    pub fn read_word(&self, address: usize) -> (value: i32)
        requires
            word_in_memory(address as int),
        ensures
            value == word_at(self@, address as int),
    {
        let b0 = self.mem[address];
        let b1 = self.mem[address + 1];
        let b2 = self.mem[address + 2];
        let b3 = self.mem[address + 3];
        (((b0 as u32) << 24u32) | ((b1 as u32) << 16u32) | ((b2 as u32) << 8u32) | (b3 as u32)) as i32
    }

    pub fn write_word(&mut self, address: usize, value: i32)
        requires
            word_in_memory(address as int),
        ensures
            final(self)@ == with_word(old(self)@, address as int, value),
    {
        let u = value as u32;
        self.mem[address] = (u >> 24u32) as u8;
        self.mem[address + 1] = (u >> 16u32) as u8;
        self.mem[address + 2] = (u >> 8u32) as u8;
        self.mem[address + 3] = u as u8;
        assert(u >> 0u32 == u) by (bit_vector);
        assert(self@ =~= with_word(old(self)@, address as int, value));
    }

    pub fn get_gpr(&self, index: usize) -> (value: u32)
        requires
            index < 16,
        ensures
            value == gpr_at(self@, index as int),
    {
        let mut value: u32 = 0;
        let mut i: usize = index * 4;
        while i < (index + 1) * 4
            invariant
                index < 16,
                index * 4 <= i <= (index + 1) * 4,
                value == gpr_prefix(self@, index * 4, i as int),
            decreases (index + 1) * 4 - i,
        {
            let v = self.mem[i];
            proof {
                lemma_gpr_prefix_step(self@, index * 4, i as int);
            }
            value = (value << 8u32) | (v as u32);
            i += 1;
        }
        proof {
            lemma_gpr_prefix_full(self@, index as int);
        }
        value
    }

    pub fn set_gpr(&mut self, index: usize, value: u32)
        requires
            index < 16,
        ensures
            final(self)@ == with_gpr(old(self)@, index as int, value),
    {
        let mut i: usize = 0;
        while i < 4
            invariant
                index < 16,
                i <= 4,
                self@ == set_gpr_prefix(old(self)@, index as int, value, i as int),
            decreases 4 - i,
        {
            let shift: u32 = ((4 - i - 1) * 8) as u32;
            self.mem[index * 4 + i] = (value & (0xffu32 << shift)) as u8;
            proof {
                lemma_gpr_byte(value, i as int, shift);
            }
            i += 1;
        }
        proof {
            lemma_set_gpr_prefix_full(old(self)@, index as int, value);
        }
    }
}

impl Memory {
    fn apply_record(&mut self, record: &Record)
        requires
            forall|j: int| 0 <= j < record@.1.len() ==> #[trigger] triple_fits(record@.1[j]),
        ensures
            final(self)@ == write_triples(old(self)@, record@.1),
    {
        let ghost ts = record@.1;
        let n = record.data_triples.len();
        let mut k: usize = 0;
        while k < n
            invariant
                n == record.data_triples@.len() == ts.len(),
                ts == record@.1,
                forall|j: int| 0 <= j < ts.len() ==> #[trigger] triple_fits(ts[j]),
                k <= n,
                self@ == write_triples(old(self)@, ts.take(k as int)),
            decreases n - k,
        {
            let data_triple: &DataTriple = &record.data_triples[k];
            assert(ts[k as int] == data_triple@);
            assert(triple_fits(ts[k as int]));
            let ghost before = self@;
            let len = data_triple.data_fields.len();
            let mut i: usize = 0;
            while i < len
                invariant
                    len == data_triple.data_fields@.len(),
                    len == 0 || data_triple.address + len <= SIZE,
                    i <= len,
                    before.len() == SIZE,
                    self@ == Seq::new(
                        SIZE as nat,
                        |j: int|
                            if data_triple.address <= j < data_triple.address + i {
                                data_triple.data_fields@[j - data_triple.address]
                            } else {
                                before[j]
                            },
                    ),
                decreases len - i,
            {
                self.set(data_triple.address as usize + i, data_triple.data_fields[i]);
                i += 1;
                assert(self@ =~= Seq::new(
                    SIZE as nat,
                    |j: int|
                        if data_triple.address <= j < data_triple.address + i {
                            data_triple.data_fields@[j - data_triple.address]
                        } else {
                            before[j]
                        },
                ));
            }
            assert(self@ =~= write_triple(before, data_triple@));
            assert(ts.take(k + 1).drop_last() =~= ts.take(k as int));
            k += 1;
        }
        assert(ts.take(n as int) =~= ts);
    }
}

/// The unsigned value accumulated from characters `start .. end`, most
/// significant first.
spec fn gpr_prefix(m: Seq<u8>, start: int, end: int) -> u32
    decreases end - start,
{
    if end <= start {
        0
    } else {
        ((gpr_prefix(m, start, end - 1) << 8u32) | (m[end - 1] as u32)) as u32
    }
}

/// The character that `set_gpr` writes at position `i` of the register.
spec fn set_gpr_byte(value: u32, i: int) -> u8 {
    if i == 3 {
        (value & 0xff) as u8
    } else {
        0u8
    }
}

spec fn set_gpr_prefix(m: Seq<u8>, index: int, value: u32, n: int) -> Seq<u8> {
    Seq::new(
        m.len(),
        |j: int|
            if 4 * index <= j < 4 * index + n {
                set_gpr_byte(value, j - 4 * index)
            } else {
                m[j]
            },
    )
}

proof fn lemma_gpr_prefix_step(m: Seq<u8>, start: int, i: int)
    requires
        start <= i,
    ensures
        gpr_prefix(m, start, i + 1) == ((gpr_prefix(m, start, i) << 8u32) | (m[i] as u32)) as u32,
{
}

proof fn lemma_gpr_prefix_full(m: Seq<u8>, index: int)
    requires
        0 <= index < 16,
    ensures
        gpr_prefix(m, 4 * index, 4 * index + 4) == gpr_at(m, index),
{
    let a = 4 * index;
    reveal_with_fuel(gpr_prefix, 5);
    let b0 = m[a] as u32;
    let b1 = m[a + 1] as u32;
    let b2 = m[a + 2] as u32;
    let b3 = m[a + 3] as u32;
    assert(b0 < 256 && b1 < 256 && b2 < 256 && b3 < 256);
    assert(((((((((0u32 << 8u32) | b0) << 8u32) | b1) << 8u32) | b2) << 8u32) | b3) == ((b0
        << 24u32) | (b1 << 16u32) | (b2 << 8u32) | b3)) by (bit_vector)
        requires
            b0 < 256 && b1 < 256 && b2 < 256 && b3 < 256,
    ;
}

proof fn lemma_gpr_byte(value: u32, i: int, shift: u32)
    requires
        0 <= i < 4,
        shift == (4 - i - 1) * 8,
    ensures
        ((value & (0xffu32 << shift)) as u8) == set_gpr_byte(value, i),
{
    if i == 3 {
        assert(shift == 0);
        assert(((value & (0xffu32 << 0u32)) as u8) == ((value & 0xff) as u8)) by (bit_vector);
    } else {
        assert(shift == 8 || shift == 16 || shift == 24);
        assert((shift == 8 || shift == 16 || shift == 24) ==> ((value & (0xffu32 << shift)) as u8)
            == 0u8) by (bit_vector);
    }
}

proof fn lemma_set_gpr_prefix_full(m: Seq<u8>, index: int, value: u32)
    requires
        0 <= index < 16,
        m.len() == SIZE,
    ensures
        set_gpr_prefix(m, index, value, 4) == with_gpr(m, index, value),
{
    assert(set_gpr_prefix(m, index, value, 4) =~= with_gpr(m, index, value));
}

/// A word read back from where it was just written is the word written.
pub proof fn lemma_read_written_word(m: Seq<u8>, a: int, v: i32)
    requires
        0 <= a,
        a + 4 <= m.len(),
    ensures
        word_at(with_word(m, a, v), a) == v,
        with_word(m, a, v).len() == m.len(),
{
    let u = v as u32;
    assert(((((u >> 24u32) as u8) as u32) << 24u32 | (((u >> 16u32) as u8) as u32) << 16u32 | (((
    u >> 8u32) as u8) as u32) << 8u32 | (((u >> 0u32) as u8) as u32)) as i32 == v) by (bit_vector)
        requires
            u == v as u32,
    ;
}

/// Writing a word changes only its four characters.
pub proof fn lemma_write_word_frame(m: Seq<u8>, a: int, v: i32, j: int)
    requires
        0 <= a,
        a + 4 <= m.len(),
        0 <= j < m.len(),
        j < a || a + 4 <= j,
    ensures
        with_word(m, a, v)[j] == m[j],
{
}

/// Of two writes to the same word, the later one is all that remains.
pub proof fn lemma_write_word_twice(m: Seq<u8>, a: int, v1: i32, v2: i32)
    requires
        0 <= a,
        a + 4 <= m.len(),
    ensures
        with_word(with_word(m, a, v1), a, v2) == with_word(m, a, v2),
{
    assert(with_word(with_word(m, a, v1), a, v2) =~= with_word(m, a, v2));
}

/// `get_gpr` and `read_reg` read the same four characters: the register's
/// unsigned value is its signed word reinterpreted.
pub proof fn lemma_gpr_is_register_word(m: Seq<u8>, index: int)
    requires
        0 <= index < 16,
        m.len() == SIZE,
    ensures
        gpr_at(m, index) == word_at(m, 4 * index) as u32,
{
    let a = 4 * index;
    let b0 = m[a];
    let b1 = m[a + 1];
    let b2 = m[a + 2];
    let b3 = m[a + 3];
    assert((((b0 as u32) << 24u32) | ((b1 as u32) << 16u32) | ((b2 as u32) << 8u32) | (b3 as u32))
        == ((((b0 as u32) << 24u32) | ((b1 as u32) << 16u32) | ((b2 as u32) << 8u32) | (b3 as u32))
        as i32) as u32) by (bit_vector);
}

/// After `set_gpr(index, value)` the register reads back the low eight bits
/// of `value`; so a value below 256 reads back unchanged.
pub proof fn lemma_gpr_read_after_set(m: Seq<u8>, index: int, value: u32)
    requires
        0 <= index < 16,
        m.len() == SIZE,
    ensures
        gpr_at(with_gpr(m, index, value), index) == value & 0xff,
        value < 256 ==> gpr_at(with_gpr(m, index, value), index) == value,
{
    let b3 = (value & 0xff) as u8;
    assert((((0u8 as u32) << 24u32) | ((0u8 as u32) << 16u32) | ((0u8 as u32) << 8u32) | (b3 as u32))
        == value & 0xff) by (bit_vector)
        requires
            b3 == (value & 0xff) as u8,
    ;
    assert(value < 256 ==> value & 0xff == value) by (bit_vector);
}

/// A word is its four characters read as a base-256 number, most
/// significant first, in two's complement.
pub proof fn lemma_word_layout(m: Seq<u8>, a: int)
    requires
        0 <= a,
        a + 4 <= m.len(),
    ensures
        word_at(m, a) as u32 as int == m[a] * 0x1000000 + m[a + 1] * 0x10000 + m[a + 2] * 0x100
            + m[a + 3],
{
    let b0 = m[a];
    let b1 = m[a + 1];
    let b2 = m[a + 2];
    let b3 = m[a + 3];
    assert((((((b0 as u32) << 24u32) | ((b1 as u32) << 16u32) | ((b2 as u32) << 8u32) | (b3 as u32))
        as i32) as u32) as int == b0 as int * 0x1000000 + b1 as int * 0x10000 + b2 as int * 0x100
        + b3 as int) by (bit_vector);
}

/// Writing a word puts its four characters, most significant first.
pub proof fn lemma_write_layout(m: Seq<u8>, a: int, v: i32)
    requires
        0 <= a,
        a + 4 <= m.len(),
    ensures
        with_word(m, a, v)[a] as int == (v as u32) / 0x1000000,
        with_word(m, a, v)[a + 1] as int == (v as u32) / 0x10000 % 0x100,
        with_word(m, a, v)[a + 2] as int == (v as u32) / 0x100 % 0x100,
        with_word(m, a, v)[a + 3] as int == (v as u32) % 0x100,
{
    let u = v as u32;
    assert(((u >> 24u32) as u8) as int == u / 0x1000000 && ((u >> 16u32) as u8) as int == u
        / 0x10000 % 0x100 && ((u >> 8u32) as u8) as int == u / 0x100 % 0x100 && ((u >> 0u32) as u8)
        as int == u % 0x100) by (bit_vector);
}

/// A general purpose register's unsigned value is its four characters read as
/// a base-256 number, most significant first; `set_gpr` leaves the value
/// modulo 256 in the last character and zeros before it.
pub proof fn lemma_gpr_layout(m: Seq<u8>, index: int, value: u32)
    requires
        0 <= index < 16,
        m.len() == SIZE,
    ensures
        gpr_at(m, index) as int == m[4 * index] * 0x1000000 + m[4 * index + 1] * 0x10000 + m[4
            * index + 2] * 0x100 + m[4 * index + 3],
        with_gpr(m, index, value)[4 * index] == 0,
        with_gpr(m, index, value)[4 * index + 1] == 0,
        with_gpr(m, index, value)[4 * index + 2] == 0,
        with_gpr(m, index, value)[4 * index + 3] as int == value % 256,
{
    let a = 4 * index;
    let b0 = m[a];
    let b1 = m[a + 1];
    let b2 = m[a + 2];
    let b3 = m[a + 3];
    assert(((((b0 as u32) << 24u32) | ((b1 as u32) << 16u32) | ((b2 as u32) << 8u32) | (b3 as u32))
        as u32) as int == b0 as int * 0x1000000 + b1 as int * 0x10000 + b2 as int * 0x100
        + b3 as int) by (bit_vector);
    assert(((value & 0xff) as u8) as int == value % 256) by (bit_vector);
}

} // verus!
