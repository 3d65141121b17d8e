//! The round-trip laws: writing a code and reading it back yields the
//! code, and a string in canonical form survives a parse and re-format
//! unchanged.

use vstd::prelude::*;

use crate::code::{lemma_spec_make_inverse, Uniclass};
use crate::error::ParseUniclassError;
use crate::numeral::{dec_of, lemma_dec_of_val, spec_parse_level};
use crate::split::{lemma_split_concat, lemma_split_single, spec_split};
use crate::table::{lemma_table_code_inverse, table_code};
use crate::text::{spec_opt_level, spec_parse};

verus! {

/// Parsing what a code formats to yields that code back, for every
/// well-formed code whose levels are hierarchical (no level present
/// under an absent one; a non-hierarchical code loses its deeper levels
/// in the text, which stops at the first absence).
pub proof fn lemma_parse_format_round_trip(c: Uniclass)
    requires
        c.wf(),
        c.hierarchical(),
    ensures
        spec_parse(c.spec_format()) == Ok::<Uniclass, ParseUniclassError>(c),
{
    let t = c.spec_table();
    let g = c.spec_group();
    let tc = table_code(t);
    let dg = dec_of(g as int);
    let s = c.spec_format();
    lemma_table_code_inverse(t);
    lemma_dec_of_val(g as int);
    c.lemma_levels_in_range();
    lemma_spec_make_inverse(c);
    match c.spec_sub_group() {
        None => {
            assert(s =~= tc + seq!['_'] + dg);
            lemma_split_single(dg);
            lemma_split_concat(tc, dg);
            let toks = spec_split(s);
            assert(toks =~~= seq![tc, dg]);
            assert(spec_parse_level(toks[1]) == Ok::<u8, ParseUniclassError>(g));
        },
        Some(sg) => {
            lemma_dec_of_val(sg as int);
            let dsg = dec_of(sg as int);
            match c.spec_section() {
                None => {
                    assert(s =~= tc + seq!['_'] + (dg + seq!['_'] + dsg));
                    lemma_split_single(dsg);
                    lemma_split_concat(dg, dsg);
                    lemma_split_concat(tc, dg + seq!['_'] + dsg);
                    let toks = spec_split(s);
                    assert(toks =~~= seq![tc, dg, dsg]);
                    assert(spec_parse_level(toks[1]) == Ok::<u8, ParseUniclassError>(g));
                    assert(spec_opt_level(toks, 2) == Ok::<Option<u8>, ParseUniclassError>(
                        Some(sg),
                    ));
                },
                Some(sec) => {
                    lemma_dec_of_val(sec as int);
                    let dsec = dec_of(sec as int);
                    match c.spec_object() {
                        None => {
                            assert(s =~= tc + seq!['_'] + (dg + seq!['_'] + (dsg + seq!['_']
                                + dsec)));
                            lemma_split_single(dsec);
                            lemma_split_concat(dsg, dsec);
                            lemma_split_concat(dg, dsg + seq!['_'] + dsec);
                            lemma_split_concat(tc, dg + seq!['_'] + (dsg + seq!['_'] + dsec));
                            let toks = spec_split(s);
                            assert(toks =~~= seq![tc, dg, dsg, dsec]);
                            assert(spec_parse_level(toks[1]) == Ok::<u8, ParseUniclassError>(g));
                            assert(spec_opt_level(toks, 2) == Ok::<Option<u8>, ParseUniclassError>(
                                Some(sg),
                            ));
                            assert(spec_opt_level(toks, 3) == Ok::<Option<u8>, ParseUniclassError>(
                                Some(sec),
                            ));
                        },
                        Some(o) => {
                            lemma_dec_of_val(o as int);
                            let dobj = dec_of(o as int);
                            assert(s =~= tc + seq!['_'] + (dg + seq!['_'] + (dsg + seq!['_'] + (
                            dsec + seq!['_'] + dobj))));
                            lemma_split_single(dobj);
                            lemma_split_concat(dsec, dobj);
                            lemma_split_concat(dsg, dsec + seq!['_'] + dobj);
                            lemma_split_concat(dg, dsg + seq!['_'] + (dsec + seq!['_'] + dobj));
                            lemma_split_concat(tc, dg + seq!['_'] + (dsg + seq!['_'] + (dsec
                                + seq!['_'] + dobj)));
                            let toks = spec_split(s);
                            assert(toks =~~= seq![tc, dg, dsg, dsec, dobj]);
                            assert(spec_parse_level(toks[1]) == Ok::<u8, ParseUniclassError>(g));
                            assert(spec_opt_level(toks, 2) == Ok::<Option<u8>, ParseUniclassError>(
                                Some(sg),
                            ));
                            assert(spec_opt_level(toks, 3) == Ok::<Option<u8>, ParseUniclassError>(
                                Some(sec),
                            ));
                            assert(spec_opt_level(toks, 4) == Ok::<Option<u8>, ParseUniclassError>(
                                Some(o),
                            ));
                        },
                    }
                },
            }
        },
    }
}

/// A string is canonical when it is the textual form of some
/// well-formed, hierarchical code: the table mnemonic and one to four
/// levels, right-trimmed at the first absence.
pub open spec fn is_canonical(s: Seq<char>) -> bool {
    exists|c: Uniclass| c.wf() && c.hierarchical() && c.spec_format() == s
}

/// Parsing a canonical string succeeds, and formatting the parsed code
/// yields the string again, character for character.
pub proof fn lemma_format_parse_round_trip(s: Seq<char>)
    requires
        is_canonical(s),
    ensures
        spec_parse(s) matches Ok(c) && c.spec_format() == s,
{
    let c = choose|c: Uniclass| c.wf() && c.hierarchical() && c.spec_format() == s;
    lemma_parse_format_round_trip(c);
}

} // verus!
