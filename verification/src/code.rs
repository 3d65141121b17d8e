//! The packed Uniclass code: one table tag plus four numeric levels in a
//! single 32-bit word, one byte per level, most-significant byte first.
//! The high bit of an optional level's byte marks the level absent; a
//! present level therefore carries a value in 0..=127.

use vstd::prelude::*;

use crate::error::ParseUniclassError;
use crate::table::{lemma_table_rank_injective, table_rank, UniclassTable};
use vstd::std_specs::cmp::PartialOrdSpec;

verus! {

/// A classification code: a table and up to four hierarchical levels.
///
/// Values are immutable once assembled; two codes are equal exactly when
/// their table and packed word are equal, and for well-formed codes that
/// coincides with equality of the five conceptual fields
/// ([`lemma_code_eq`]). Codes order by table first, then by the packed
/// word, which [`lemma_order`] spells out over the five fields; the
/// derived `Ord` and `Hash` agree with `PartialEq` and `PartialOrd`.
#[derive(Copy, Clone, Debug, PartialEq, Eq, Ord, Hash, Structural)]
pub struct Uniclass {
    pub(crate) table: UniclassTable,
    pub(crate) codes: u32,
}

/// The byte that stands for an optional level: the value itself when
/// present, the absence marker `0x80` when absent.
pub open spec fn level_byte(level: Option<u8>) -> u8 {
    match level {
        Some(v) => v,
        None => 0x80,
    }
}

/// The four level bytes packed into one word, group first.
pub open spec fn pack_levels(group: u8, b1: u8, b2: u8, b3: u8) -> u32 {
    (((group as u32) << 24) | ((b1 as u32) << 16) | ((b2 as u32) << 8) | (b3 as u32)) as u32
}

/// How an absent level compares: absent reads as 128, above every
/// present value 0..=127.
pub open spec fn level_key(level: Option<u8>) -> int {
    match level {
        Some(v) => v as int,
        None => 128,
    }
}

impl Uniclass {
    /// The packed word holding the four level bytes.
    pub closed spec fn spec_packed(self) -> u32 {
        self.codes
    }

    /// The table the code belongs to.
    pub closed spec fn spec_table(self) -> UniclassTable {
        self.table
    }

    /// The mandatory group level: the word's most significant byte.
    pub open spec fn spec_group(self) -> u8 {
        ((self.spec_packed() >> 24) & 0xff) as u8
    }

    /// The sub-group level, absent when its byte has the high bit set.
    pub open spec fn spec_sub_group(self) -> Option<u8> {
        let b = ((self.spec_packed() >> 16) & 0xff) as u8;
        if b >= 128 {
            None
        } else {
            Some(b)
        }
    }

    /// The section level, absent when its byte has the high bit set.
    pub open spec fn spec_section(self) -> Option<u8> {
        let b = ((self.spec_packed() >> 8) & 0xff) as u8;
        if b >= 128 {
            None
        } else {
            Some(b)
        }
    }

    /// The object level, absent when its byte has the high bit set.
    pub open spec fn spec_object(self) -> Option<u8> {
        let b = (self.spec_packed() & 0xff) as u8;
        if b >= 128 {
            None
        } else {
            Some(b)
        }
    }

    /// Well-formed: the group fits in 0..=127 and every absent level is
    /// marked by exactly `0x80`, so the packed word is determined by the
    /// five conceptual fields. Every code assembled by [`Uniclass::new`]
    /// or produced by parsing is well-formed.
    pub open spec fn wf(self) -> bool {
        &&& self.spec_group() <= 127
        &&& self.spec_packed() == pack_levels(
            self.spec_group(),
            level_byte(self.spec_sub_group()),
            level_byte(self.spec_section()),
            level_byte(self.spec_object()),
        )
    }

    /// The levels are hierarchical: no level is present unless all
    /// shallower levels are present.
    pub open spec fn hierarchical(self) -> bool {
        &&& self.spec_sub_group() is None ==> self.spec_section() is None
        &&& self.spec_section() is None ==> self.spec_object() is None
    }

    /// All level values the accessors report fit in 0..=127.
    pub proof fn lemma_levels_in_range(self)
        ensures
            self.spec_sub_group() matches Some(v) ==> v <= 127,
            self.spec_section() matches Some(v) ==> v <= 127,
            self.spec_object() matches Some(v) ==> v <= 127,
    {
    }

    /// Assemble a code from its fields.
    ///
    /// Succeeds exactly when the group and every present optional level
    /// lie in 0..=127; any value of 128 or above is rejected with
    /// `OutOfRange` rather than truncated.
    pub fn new(
        table: UniclassTable,
        group: u8,
        sub_group: Option<u8>,
        section: Option<u8>,
        object: Option<u8>,
    ) -> (r: Result<Uniclass, ParseUniclassError>)
        ensures
            levels_in_range(group, sub_group, section, object) ==> r == Ok::<
                Uniclass,
                ParseUniclassError,
            >(spec_make(table, group, sub_group, section, object)),
            !levels_in_range(group, sub_group, section, object) ==> r == Err::<
                Uniclass,
                ParseUniclassError,
            >(ParseUniclassError::OutOfRange),
            r matches Ok(c) ==> {
                &&& c.wf()
                &&& c.spec_table() == table
                &&& c.spec_group() == group
                &&& c.spec_sub_group() == sub_group
                &&& c.spec_section() == section
                &&& c.spec_object() == object
            },
    {
        if group > 127 {
            return Err(ParseUniclassError::OutOfRange);
        }
        if let Some(v) = sub_group {
            if v > 127 {
                return Err(ParseUniclassError::OutOfRange);
            }
        }
        if let Some(v) = section {
            if v > 127 {
                return Err(ParseUniclassError::OutOfRange);
            }
        }
        if let Some(v) = object {
            if v > 127 {
                return Err(ParseUniclassError::OutOfRange);
            }
        }
        proof {
            lemma_spec_make_fields(table, group, sub_group, section, object);
        }
        Ok(Self::assemble(table, group, sub_group, section, object))
    }

    /// Pack fields already known to be in range.
    pub(crate) fn assemble(
        table: UniclassTable,
        group: u8,
        sub_group: Option<u8>,
        section: Option<u8>,
        object: Option<u8>,
    ) -> (r: Uniclass)
        requires
            levels_in_range(group, sub_group, section, object),
        ensures
            r == spec_make(table, group, sub_group, section, object),
    {
        let b1: u8 = match sub_group {
            Some(v) => v,
            None => 0x80,
        };
        let b2: u8 = match section {
            Some(v) => v,
            None => 0x80,
        };
        let b3: u8 = match object {
            Some(v) => v,
            None => 0x80,
        };
        let codes: u32 = ((group as u32) << 24) | ((b1 as u32) << 16) | ((b2 as u32) << 8) | (
        b3 as u32);
        Uniclass { table, codes }
    }

    /// The table the code belongs to.
    pub fn table(&self) -> (r: UniclassTable)
        ensures
            r == self.spec_table(),
    {
        self.table
    }

    /// The mandatory group level.
    pub fn group(&self) -> (r: u8)
        ensures
            r == self.spec_group(),
    {
        proof {
            let x = self.codes;
            assert((x >> 24) & 0xff <= 0xff) by (bit_vector);
        }
        ((self.codes >> 24) & 0xff) as u8
    }

    /// The sub-group level, if present.
    pub fn sub_group(&self) -> (r: Option<u8>)
        ensures
            r == self.spec_sub_group(),
    {
        proof {
            let x = self.codes;
            assert((x >> 16) & 0xff <= 0xff) by (bit_vector);
        }
        let b = ((self.codes >> 16) & 0xff) as u8;
        if b >= 128 {
            None
        } else {
            Some(b)
        }
    }

    /// The section level, if present.
    pub fn section(&self) -> (r: Option<u8>)
        ensures
            r == self.spec_section(),
    {
        proof {
            let x = self.codes;
            assert((x >> 8) & 0xff <= 0xff) by (bit_vector);
        }
        let b = ((self.codes >> 8) & 0xff) as u8;
        if b >= 128 {
            None
        } else {
            Some(b)
        }
    }

    /// The object level, if present.
    pub fn object(&self) -> (r: Option<u8>)
        ensures
            r == self.spec_object(),
    {
        proof {
            let x = self.codes;
            assert(x & 0xff <= 0xff) by (bit_vector);
        }
        let b = (self.codes & 0xff) as u8;
        if b >= 128 {
            None
        } else {
            Some(b)
        }
    }
}

/// The group and every present optional level fit in 0..=127.
pub open spec fn levels_in_range(
    group: u8,
    sub_group: Option<u8>,
    section: Option<u8>,
    object: Option<u8>,
) -> bool {
    &&& group <= 127
    &&& (sub_group matches Some(v) ==> v <= 127)
    &&& (section matches Some(v) ==> v <= 127)
    &&& (object matches Some(v) ==> v <= 127)
}

/// The code whose fields are exactly the given table and levels.
pub closed spec fn spec_make(
    table: UniclassTable,
    group: u8,
    sub_group: Option<u8>,
    section: Option<u8>,
    object: Option<u8>,
) -> Uniclass {
    Uniclass {
        table,
        codes: pack_levels(group, level_byte(sub_group), level_byte(section), level_byte(object)),
    }
}

/// Unpacking the packed word recovers each byte that was packed,
/// provided the group byte has no high bit.
proof fn lemma_unpack_pack(group: u8, b1: u8, b2: u8, b3: u8)
    requires
        group <= 127,
    ensures
        (pack_levels(group, b1, b2, b3) >> 24) & 0xff == group,
        (pack_levels(group, b1, b2, b3) >> 16) & 0xff == b1,
        (pack_levels(group, b1, b2, b3) >> 8) & 0xff == b2,
        pack_levels(group, b1, b2, b3) & 0xff == b3,
{
    assert((pack_levels(group, b1, b2, b3) >> 24) & 0xff == group && (pack_levels(group, b1, b2,
    b3) >> 16) & 0xff == b1 && (pack_levels(group, b1, b2, b3) >> 8) & 0xff == b2 && pack_levels(
    group, b1, b2, b3) & 0xff == b3) by (bit_vector)
        requires
            group <= 127,
    ;
}

/// A code assembled from in-range fields is well-formed and reports back
/// exactly the fields it was assembled from.
pub proof fn lemma_spec_make_fields(
    table: UniclassTable,
    group: u8,
    sub_group: Option<u8>,
    section: Option<u8>,
    object: Option<u8>,
)
    requires
        levels_in_range(group, sub_group, section, object),
    ensures
        spec_make(table, group, sub_group, section, object).wf(),
        spec_make(table, group, sub_group, section, object).spec_table() == table,
        spec_make(table, group, sub_group, section, object).spec_group() == group,
        spec_make(table, group, sub_group, section, object).spec_sub_group() == sub_group,
        spec_make(table, group, sub_group, section, object).spec_section() == section,
        spec_make(table, group, sub_group, section, object).spec_object() == object,
{
    lemma_unpack_pack(group, level_byte(sub_group), level_byte(section), level_byte(object));
}

/// For a well-formed code, reassembling its own fields gives it back:
/// the packed word carries no information beyond the five fields.
pub proof fn lemma_spec_make_inverse(c: Uniclass)
    requires
        c.wf(),
    ensures
        spec_make(c.spec_table(), c.spec_group(), c.spec_sub_group(), c.spec_section(),
        c.spec_object()) == c,
{
}

/// Well-formed codes are equal exactly when all five fields are equal;
/// equal codes also hash identically, hashing being a function of the
/// fields.
pub proof fn lemma_code_eq(a: Uniclass, b: Uniclass)
    requires
        a.wf(),
        b.wf(),
    ensures
        a == b <==> {
            &&& a.spec_table() == b.spec_table()
            &&& a.spec_group() == b.spec_group()
            &&& a.spec_sub_group() == b.spec_sub_group()
            &&& a.spec_section() == b.spec_section()
            &&& a.spec_object() == b.spec_object()
        },
{
    if a.spec_table() == b.spec_table() && a.spec_group() == b.spec_group() && a.spec_sub_group()
        == b.spec_sub_group() && a.spec_section() == b.spec_section() && a.spec_object()
        == b.spec_object() {
        lemma_spec_make_inverse(a);
        lemma_spec_make_inverse(b);
    }
}

impl PartialOrd for Uniclass {
    /// Codes compare by table first, then by the packed word.
    fn partial_cmp(&self, other: &Self) -> Option<core::cmp::Ordering> {
        let a = self.table.rank();
        let b = other.table.rank();
        if a < b {
            Some(core::cmp::Ordering::Less)
        } else if a > b {
            Some(core::cmp::Ordering::Greater)
        } else if self.codes < other.codes {
            Some(core::cmp::Ordering::Less)
        } else if self.codes == other.codes {
            Some(core::cmp::Ordering::Equal)
        } else {
            Some(core::cmp::Ordering::Greater)
        }
    }
}

impl vstd::std_specs::cmp::PartialOrdSpecImpl for Uniclass {
    open spec fn obeys_partial_cmp_spec() -> bool {
        true
    }

    open spec fn partial_cmp_spec(&self, other: &Self) -> Option<core::cmp::Ordering> {
        if table_rank(self.spec_table()) < table_rank(other.spec_table()) {
            Some(core::cmp::Ordering::Less)
        } else if table_rank(self.spec_table()) > table_rank(other.spec_table()) {
            Some(core::cmp::Ordering::Greater)
        } else if self.spec_packed() < other.spec_packed() {
            Some(core::cmp::Ordering::Less)
        } else if self.spec_packed() == other.spec_packed() {
            Some(core::cmp::Ordering::Equal)
        } else {
            Some(core::cmp::Ordering::Greater)
        }
    }
}

/// What the comparison operators decide, spelled out over the five
/// fields: a code of an earlier table is smaller; within one table the
/// levels compare lexicographically, group first, an absent level
/// sorting after every present value at its position; and `Equal` comes
/// exactly for equal codes.
pub proof fn lemma_order(a: Uniclass, b: Uniclass)
    requires
        a.wf(),
        b.wf(),
    ensures
        a.partial_cmp_spec(&b) == Some(core::cmp::Ordering::Less) <==> {
            ||| table_rank(a.spec_table()) < table_rank(b.spec_table())
            ||| (a.spec_table() == b.spec_table() && {
                ||| a.spec_group() < b.spec_group()
                ||| (a.spec_group() == b.spec_group() && level_key(a.spec_sub_group()) < level_key(
                    b.spec_sub_group(),
                ))
                ||| (a.spec_group() == b.spec_group() && level_key(a.spec_sub_group()) == level_key(
                    b.spec_sub_group(),
                ) && level_key(a.spec_section()) < level_key(b.spec_section()))
                ||| (a.spec_group() == b.spec_group() && level_key(a.spec_sub_group()) == level_key(
                    b.spec_sub_group(),
                ) && level_key(a.spec_section()) == level_key(b.spec_section()) && level_key(
                    a.spec_object(),
                ) < level_key(b.spec_object()))
            })
        },
        a.partial_cmp_spec(&b) == Some(core::cmp::Ordering::Equal) <==> a == b,
{
    lemma_table_rank_injective(a.spec_table(), b.spec_table());
    lemma_packed_order(a, b);
    lemma_packed_order(b, a);
}

/// For well-formed codes of one table, the packed word orders the codes
/// lexicographically by group, sub-group, section and object, an absent
/// level sorting after every present value at its position.
pub proof fn lemma_packed_order(a: Uniclass, b: Uniclass)
    requires
        a.wf(),
        b.wf(),
    ensures
        a.spec_packed() < b.spec_packed() <==> {
            ||| a.spec_group() < b.spec_group()
            ||| (a.spec_group() == b.spec_group() && level_key(a.spec_sub_group()) < level_key(
                b.spec_sub_group(),
            ))
            ||| (a.spec_group() == b.spec_group() && level_key(a.spec_sub_group()) == level_key(
                b.spec_sub_group(),
            ) && level_key(a.spec_section()) < level_key(b.spec_section()))
            ||| (a.spec_group() == b.spec_group() && level_key(a.spec_sub_group()) == level_key(
                b.spec_sub_group(),
            ) && level_key(a.spec_section()) == level_key(b.spec_section()) && level_key(
                a.spec_object(),
            ) < level_key(b.spec_object()))
        },
{
    lemma_unpack_pack(a.spec_group(), level_byte(a.spec_sub_group()), level_byte(a.spec_section()),
    level_byte(a.spec_object()));
    lemma_unpack_pack(b.spec_group(), level_byte(b.spec_sub_group()), level_byte(b.spec_section()),
    level_byte(b.spec_object()));
    let x = a.spec_packed();
    let y = b.spec_packed();
    assert(x < y <==> {
        ||| (x >> 24) & 0xff < (y >> 24) & 0xff
        ||| ((x >> 24) & 0xff == (y >> 24) & 0xff && (x >> 16) & 0xff < (y >> 16) & 0xff)
        ||| ((x >> 24) & 0xff == (y >> 24) & 0xff && (x >> 16) & 0xff == (y >> 16) & 0xff && (x
            >> 8) & 0xff < (y >> 8) & 0xff)
        ||| ((x >> 24) & 0xff == (y >> 24) & 0xff && (x >> 16) & 0xff == (y >> 16) & 0xff && (x
            >> 8) & 0xff == (y >> 8) & 0xff && x & 0xff < y & 0xff)
    }) by (bit_vector);
}

} // verus!
