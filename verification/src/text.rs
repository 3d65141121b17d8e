//! The canonical textual form: parsing a `_`-delimited code string into
//! a packed code, and writing a code back out, each proved against a
//! specification stated over the split of the text.

use vstd::prelude::*;

use crate::code::{spec_make, Uniclass};
use crate::error::ParseUniclassError;
use crate::numeral::{dec_of, format_level, parse_level, spec_parse_level};
use crate::split::{lemma_split_at, lemma_split_len, spec_split};
use crate::table::{spec_table_of_token, table_code, UniclassTable};

verus! {

/// What an optional level at token position `k` yields: absent when the
/// text has no token there, otherwise the token read as a level.
pub open spec fn spec_opt_level(toks: Seq<Seq<char>>, k: int) -> Result<
    Option<u8>,
    ParseUniclassError,
> {
    if toks.len() <= k {
        Ok(None)
    } else {
        match spec_parse_level(toks[k]) {
            Ok(v) => Ok(Some(v)),
            Err(e) => Err(e),
        }
    }
}

/// What parsing a code string yields.
///
/// The text is split on `_`. The first token must be a table mnemonic,
/// else `InvalidTable`; a second token is mandatory, else
/// `InsufficientSegments`; it and the up to three tokens after it are
/// read as levels, each a numeral denoting at most 127, else
/// `ParseIntError` or `OutOfRange`. Tokens beyond the fifth are
/// ignored. On success the code holds exactly the levels the tokens
/// denote, the missing trailing ones absent.
pub open spec fn spec_parse(s: Seq<char>) -> Result<Uniclass, ParseUniclassError> {
    let toks = spec_split(s);
    match spec_table_of_token(toks[0]) {
        None => Err(ParseUniclassError::InvalidTable),
        Some(table) => if toks.len() < 2 {
            Err(ParseUniclassError::InsufficientSegments)
        } else {
            match spec_parse_level(toks[1]) {
                Err(e) => Err(e),
                Ok(group) => match spec_opt_level(toks, 2) {
                    Err(e) => Err(e),
                    Ok(sub_group) => match spec_opt_level(toks, 3) {
                        Err(e) => Err(e),
                        Ok(section) => match spec_opt_level(toks, 4) {
                            Err(e) => Err(e),
                            Ok(object) => Ok(spec_make(table, group, sub_group, section, object)),
                        },
                    },
                },
            }
        },
    }
}

/// The first position at or after `from` holding the delimiter, or the
/// end of the string if there is none.
fn find_delim(s: &str, from: usize, len: usize) -> (r: usize)
    requires
        len == s@.len(),
        from <= len,
    ensures
        from <= r <= len,
        forall|j: int| from <= j < r ==> s@[j] != '_',
        r < len ==> s@[r as int] == '_',
{
    let mut i = from;
    while i < len
        invariant
            len == s@.len(),
            from <= i <= len,
            forall|j: int| from <= j < i ==> s@[j] != '_',
        decreases len - i,
    {
        if s.get_char(i) == '_' {
            return i;
        }
        i += 1;
    }
    i
}

/// One scanning step: with the segments before `start` already read off
/// into `pre`, the token `s[start..ek]` (delimited at `ek`, or running
/// to the end) is the next segment, and what follows a delimiter at
/// `ek` splits into the remaining segments.
proof fn lemma_consume(s: Seq<char>, start: int, ek: int, pre: Seq<Seq<char>>, toks: Seq<Seq<char>>)
    requires
        0 <= start <= ek <= s.len(),
        toks == pre + spec_split(s.subrange(start, s.len() as int)),
        forall|j: int| start <= j < ek ==> s[j] != '_',
        ek < s.len() ==> s[ek] == '_',
    ensures
        toks.len() > pre.len(),
        toks[pre.len() as int] == s.subrange(start, ek),
        ek == s.len() ==> toks.len() == pre.len() + 1,
        ek < s.len() ==> toks == (pre + seq![s.subrange(start, ek)]) + spec_split(
            s.subrange(ek + 1, s.len() as int),
        ),
{
    let rem = s.subrange(start, s.len() as int);
    lemma_split_at(rem, ek - start);
    assert(rem.subrange(0, ek - start) =~= s.subrange(start, ek));
    if ek < s.len() {
        assert(rem.subrange(ek - start + 1, rem.len() as int) =~= s.subrange(
            ek + 1,
            s.len() as int,
        ));
        lemma_split_len(s.subrange(ek + 1, s.len() as int));
        assert(toks =~~= (pre + seq![s.subrange(start, ek)]) + spec_split(
            s.subrange(ek + 1, s.len() as int),
        ));
    } else {
        assert(spec_split(rem) =~~= seq![rem]);
        assert(toks =~~= pre + seq![s.subrange(start, ek)]);
    }
}

impl Uniclass {
    /// Parse the canonical textual form of a code.
    ///
    /// Pure: the result is exactly [`spec_parse`] of the text, so
    /// success and each error are pinned down for every input.
    pub fn parse(s: &str) -> (r: Result<Uniclass, ParseUniclassError>)
        ensures
            r == spec_parse(s@),
            r matches Ok(c) ==> c.wf(),
    {
        let ghost toks = spec_split(s@);
        let len = s.unicode_len();

        // First token: the table mnemonic.
        let e0 = find_delim(s, 0, len);
        let ghost tok0 = s@.subrange(0, e0 as int);
        proof {
            assert(s@.subrange(0, len as int) =~= s@);
            assert(toks =~~= Seq::<Seq<char>>::empty() + spec_split(s@.subrange(0, len as int)));
            lemma_consume(s@, 0, e0 as int, Seq::empty(), toks);
        }
        let table_opt = if e0 == 2 {
            UniclassTable::from_chars(s.get_char(0), s.get_char(1))
        } else {
            None
        };
        proof {
            assert(table_opt == spec_table_of_token(toks[0]));
        }
        let table = match table_opt {
            Some(t) => t,
            None => {
                return Err(ParseUniclassError::InvalidTable);
            },
        };
        if e0 == len {
            return Err(ParseUniclassError::InsufficientSegments);
        }
        // Second token: the mandatory group level.
        let s1 = e0 + 1;
        let e1 = find_delim(s, s1, len);
        let ghost tok1 = s@.subrange(s1 as int, e1 as int);
        proof {
            assert(toks =~~= seq![tok0] + spec_split(s@.subrange(s1 as int, s@.len() as int)));
            lemma_consume(s@, s1 as int, e1 as int, seq![tok0], toks);
        }
        let group = match parse_level(s, s1, e1) {
            Ok(v) => v,
            Err(e) => {
                return Err(e);
            },
        };
        // Third token, if any: the sub-group level.
        let (sub_group, e2): (Option<u8>, usize) = if e1 == len {
            (None, len)
        } else {
            let sk = e1 + 1;
            let ek = find_delim(s, sk, len);
            proof {
                assert(toks =~~= seq![tok0, tok1] + spec_split(
                    s@.subrange(sk as int, s@.len() as int),
                ));
                lemma_consume(s@, sk as int, ek as int, seq![tok0, tok1], toks);
            }
            match parse_level(s, sk, ek) {
                Ok(v) => (Some(v), ek),
                Err(e) => {
                    return Err(e);
                },
            }
        };
        let ghost tok2 = s@.subrange(e1 as int + 1, e2 as int);
        // Fourth token, if any: the section level.
        let (section, e3): (Option<u8>, usize) = if e2 == len {
            (None, len)
        } else {
            let sk = e2 + 1;
            let ek = find_delim(s, sk, len);
            proof {
                assert(toks =~~= seq![tok0, tok1, tok2] + spec_split(
                    s@.subrange(sk as int, s@.len() as int),
                ));
                lemma_consume(s@, sk as int, ek as int, seq![tok0, tok1, tok2], toks);
            }
            match parse_level(s, sk, ek) {
                Ok(v) => (Some(v), ek),
                Err(e) => {
                    return Err(e);
                },
            }
        };
        let ghost tok3 = s@.subrange(e2 as int + 1, e3 as int);
        // Fifth token, if any: the object level. Anything further is ignored.
        let object: Option<u8> = if e3 == len {
            None
        } else {
            let sk = e3 + 1;
            let ek = find_delim(s, sk, len);
            proof {
                assert(toks =~~= seq![tok0, tok1, tok2, tok3] + spec_split(
                    s@.subrange(sk as int, s@.len() as int),
                ));
                lemma_consume(s@, sk as int, ek as int, seq![tok0, tok1, tok2, tok3], toks);
            }
            match parse_level(s, sk, ek) {
                Ok(v) => Some(v),
                Err(e) => {
                    return Err(e);
                },
            }
        };
        let code = Uniclass::assemble(table, group, sub_group, section, object);
        proof {
            crate::code::lemma_spec_make_fields(table, group, sub_group, section, object);
            assert(spec_parse_level(toks[1]) == Ok::<u8, ParseUniclassError>(group));
            assert(spec_opt_level(toks, 2) == Ok::<Option<u8>, ParseUniclassError>(sub_group));
            assert(spec_opt_level(toks, 3) == Ok::<Option<u8>, ParseUniclassError>(section));
            assert(spec_opt_level(toks, 4) == Ok::<Option<u8>, ParseUniclassError>(object));
        }
        Ok(code)
    }

    /// The text of the levels after the group: nothing once a level is
    /// absent, so no placeholders are ever written for skipped levels.
    pub open spec fn spec_format_tail(self) -> Seq<char> {
        match self.spec_sub_group() {
            None => Seq::empty(),
            Some(sg) => seq!['_'] + dec_of(sg as int) + (match self.spec_section() {
                None => Seq::empty(),
                Some(sec) => seq!['_'] + dec_of(sec as int) + (match self.spec_object() {
                    None => Seq::empty(),
                    Some(o) => seq!['_'] + dec_of(o as int),
                }),
            }),
        }
    }

    /// The canonical textual form: the table mnemonic, the group, and
    /// each further level while present, joined by `_`.
    pub open spec fn spec_format(self) -> Seq<char> {
        table_code(self.spec_table()) + seq!['_'] + dec_of(self.spec_group() as int)
            + self.spec_format_tail()
    }

    /// Write the code in its canonical textual form.
    pub fn to_code_string(&self) -> (r: String)
        ensures
            r@ == self.spec_format(),
    {
        proof {
            reveal_strlit("_");
            assert("_"@ =~= seq!['_']);
        }
        let mut out = String::from_str(self.table().code_str());
        out.append("_");
        let g = format_level(self.group());
        out.append(g.as_str());
        if let Some(sg) = self.sub_group() {
            out.append("_");
            let x = format_level(sg);
            out.append(x.as_str());
            if let Some(sec) = self.section() {
                out.append("_");
                let x = format_level(sec);
                out.append(x.as_str());
                if let Some(o) = self.object() {
                    out.append("_");
                    let x = format_level(o);
                    out.append(x.as_str());
                }
            }
        }
        proof {
            assert(out@ =~= self.spec_format());
        }
        out
    }
}

impl core::str::FromStr for Uniclass {
    type Err = ParseUniclassError;

    fn from_str(s: &str) -> Result<Uniclass, ParseUniclassError> {
        Uniclass::parse(s)
    }
}

} // verus!
