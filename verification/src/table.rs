//! The closed set of Uniclass tables and the bidirectional mapping
//! between a table and its two-letter mnemonic.

use vstd::prelude::*;

verus! {

/// The top-level classification table a code belongs to.
///
/// The set is closed; each table is named in text by a fixed,
/// case-sensitive two-letter mnemonic (`Ac`, `Co`, ..., `Zz`).
#[derive(Copy, Clone, Debug, PartialEq, Eq, Ord, Hash, Structural)]
pub enum UniclassTable {
    Ac,
    Co,
    En,
    RK,
    SL,
    EF,
    Ss,
    Pr,
    TE,
    PM,
    Ma,
    PC,
    FI,
    Ro,
    Zz,
}

/// A table's position in the fixed order of tables, which is the order
/// tables compare in.
pub open spec fn table_rank(t: UniclassTable) -> int {
    match t {
        UniclassTable::Ac => 0,
        UniclassTable::Co => 1,
        UniclassTable::En => 2,
        UniclassTable::RK => 3,
        UniclassTable::SL => 4,
        UniclassTable::EF => 5,
        UniclassTable::Ss => 6,
        UniclassTable::Pr => 7,
        UniclassTable::TE => 8,
        UniclassTable::PM => 9,
        UniclassTable::Ma => 10,
        UniclassTable::PC => 11,
        UniclassTable::FI => 12,
        UniclassTable::Ro => 13,
        UniclassTable::Zz => 14,
    }
}

/// No two tables share a rank.
pub proof fn lemma_table_rank_injective(a: UniclassTable, b: UniclassTable)
    ensures
        table_rank(a) == table_rank(b) ==> a == b,
{
}

impl PartialOrd for UniclassTable {
    /// Tables compare by their position in the fixed order.
    fn partial_cmp(&self, other: &Self) -> Option<core::cmp::Ordering> {
        let a = self.rank();
        let b = other.rank();
        if a < b {
            Some(core::cmp::Ordering::Less)
        } else if a == b {
            Some(core::cmp::Ordering::Equal)
        } else {
            Some(core::cmp::Ordering::Greater)
        }
    }
}

impl vstd::std_specs::cmp::PartialOrdSpecImpl for UniclassTable {
    open spec fn obeys_partial_cmp_spec() -> bool {
        true
    }

    open spec fn partial_cmp_spec(&self, other: &Self) -> Option<core::cmp::Ordering> {
        if table_rank(*self) < table_rank(*other) {
            Some(core::cmp::Ordering::Less)
        } else if table_rank(*self) == table_rank(*other) {
            Some(core::cmp::Ordering::Equal)
        } else {
            Some(core::cmp::Ordering::Greater)
        }
    }
}

/// The two characters of a table's mnemonic.
pub open spec fn table_code(t: UniclassTable) -> Seq<char> {
    match t {
        UniclassTable::Ac => seq!['A', 'c'],
        UniclassTable::Co => seq!['C', 'o'],
        UniclassTable::En => seq!['E', 'n'],
        UniclassTable::RK => seq!['R', 'K'],
        UniclassTable::SL => seq!['S', 'L'],
        UniclassTable::EF => seq!['E', 'F'],
        UniclassTable::Ss => seq!['S', 's'],
        UniclassTable::Pr => seq!['P', 'r'],
        UniclassTable::TE => seq!['T', 'E'],
        UniclassTable::PM => seq!['P', 'M'],
        UniclassTable::Ma => seq!['M', 'a'],
        UniclassTable::PC => seq!['P', 'C'],
        UniclassTable::FI => seq!['F', 'I'],
        UniclassTable::Ro => seq!['R', 'o'],
        UniclassTable::Zz => seq!['Z', 'z'],
    }
}

/// The table whose mnemonic is the two characters `c0 c1`, if any.
pub open spec fn spec_table_from_chars(c0: char, c1: char) -> Option<UniclassTable> {
    if c0 == 'A' && c1 == 'c' {
        Some(UniclassTable::Ac)
    } else if c0 == 'C' && c1 == 'o' {
        Some(UniclassTable::Co)
    } else if c0 == 'E' && c1 == 'n' {
        Some(UniclassTable::En)
    } else if c0 == 'R' && c1 == 'K' {
        Some(UniclassTable::RK)
    } else if c0 == 'S' && c1 == 'L' {
        Some(UniclassTable::SL)
    } else if c0 == 'E' && c1 == 'F' {
        Some(UniclassTable::EF)
    } else if c0 == 'S' && c1 == 's' {
        Some(UniclassTable::Ss)
    } else if c0 == 'P' && c1 == 'r' {
        Some(UniclassTable::Pr)
    } else if c0 == 'T' && c1 == 'E' {
        Some(UniclassTable::TE)
    } else if c0 == 'P' && c1 == 'M' {
        Some(UniclassTable::PM)
    } else if c0 == 'M' && c1 == 'a' {
        Some(UniclassTable::Ma)
    } else if c0 == 'P' && c1 == 'C' {
        Some(UniclassTable::PC)
    } else if c0 == 'F' && c1 == 'I' {
        Some(UniclassTable::FI)
    } else if c0 == 'R' && c1 == 'o' {
        Some(UniclassTable::Ro)
    } else if c0 == 'Z' && c1 == 'z' {
        Some(UniclassTable::Zz)
    } else {
        None
    }
}

/// The table named by a whole token: exactly the two-character mnemonics
/// are recognized.
pub open spec fn spec_table_of_token(tok: Seq<char>) -> Option<UniclassTable> {
    if tok.len() == 2 {
        spec_table_from_chars(tok[0], tok[1])
    } else {
        None
    }
}

/// Reading a mnemonic back yields the table it was written for, and a
/// mnemonic is two characters, neither of them the `_` delimiter.
pub proof fn lemma_table_code_inverse(t: UniclassTable)
    ensures
        table_code(t).len() == 2,
        table_code(t)[0] != '_',
        table_code(t)[1] != '_',
        spec_table_of_token(table_code(t)) == Some(t),
{
}

impl UniclassTable {
    /// The table's position in the fixed order of tables.
    pub fn rank(self) -> (r: u8)
        ensures
            r as int == table_rank(self),
    {
        match self {
            UniclassTable::Ac => 0,
            UniclassTable::Co => 1,
            UniclassTable::En => 2,
            UniclassTable::RK => 3,
            UniclassTable::SL => 4,
            UniclassTable::EF => 5,
            UniclassTable::Ss => 6,
            UniclassTable::Pr => 7,
            UniclassTable::TE => 8,
            UniclassTable::PM => 9,
            UniclassTable::Ma => 10,
            UniclassTable::PC => 11,
            UniclassTable::FI => 12,
            UniclassTable::Ro => 13,
            UniclassTable::Zz => 14,
        }
    }

    /// The table's two-letter mnemonic as it appears in a textual code.
    pub fn code_str(self) -> (r: &'static str)
        ensures
            r@ == table_code(self),
    {
        proof {
            reveal_strlit("Ac");
            reveal_strlit("Co");
            reveal_strlit("En");
            reveal_strlit("RK");
            reveal_strlit("SL");
            reveal_strlit("EF");
            reveal_strlit("Ss");
            reveal_strlit("Pr");
            reveal_strlit("TE");
            reveal_strlit("PM");
            reveal_strlit("Ma");
            reveal_strlit("PC");
            reveal_strlit("FI");
            reveal_strlit("Ro");
            reveal_strlit("Zz");
        }
        let r = match self {
            UniclassTable::Ac => "Ac",
            UniclassTable::Co => "Co",
            UniclassTable::En => "En",
            UniclassTable::RK => "RK",
            UniclassTable::SL => "SL",
            UniclassTable::EF => "EF",
            UniclassTable::Ss => "Ss",
            UniclassTable::Pr => "Pr",
            UniclassTable::TE => "TE",
            UniclassTable::PM => "PM",
            UniclassTable::Ma => "Ma",
            UniclassTable::PC => "PC",
            UniclassTable::FI => "FI",
            UniclassTable::Ro => "Ro",
            UniclassTable::Zz => "Zz",
        };
        proof {
            assert(r@ =~= table_code(self));
        }
        r
    }

    /// The table whose mnemonic is the two characters `c0 c1`, if any.
    pub fn from_chars(c0: char, c1: char) -> (r: Option<UniclassTable>)
        ensures
            r == spec_table_from_chars(c0, c1),
    {
        match (c0, c1) {
            ('A', 'c') => Some(UniclassTable::Ac),
            ('C', 'o') => Some(UniclassTable::Co),
            ('E', 'n') => Some(UniclassTable::En),
            ('R', 'K') => Some(UniclassTable::RK),
            ('S', 'L') => Some(UniclassTable::SL),
            ('E', 'F') => Some(UniclassTable::EF),
            ('S', 's') => Some(UniclassTable::Ss),
            ('P', 'r') => Some(UniclassTable::Pr),
            ('T', 'E') => Some(UniclassTable::TE),
            ('P', 'M') => Some(UniclassTable::PM),
            ('M', 'a') => Some(UniclassTable::Ma),
            ('P', 'C') => Some(UniclassTable::PC),
            ('F', 'I') => Some(UniclassTable::FI),
            ('R', 'o') => Some(UniclassTable::Ro),
            ('Z', 'z') => Some(UniclassTable::Zz),
            _ => None,
        }
    }
}

} // verus!
