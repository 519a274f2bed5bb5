use vstd::prelude::*;
use vstd::string::StrSliceExecFns;
use vstd::string::StringExecFns;

use crate::digits::{all_digits, dec_val, lemma_dec_val_prefix, valid_count};
use crate::errors::Error;

verus! {

/// A half-open range `[start, end)` into a sequence of results, as resolved
/// from the `start` and `end` query parameters.
pub struct Pagination {
    pub start: usize,
    pub end: usize,
}

/// Parses a string of decimal digits as a non-negative integer. Succeeds
/// exactly when the string is non-empty, holds digits alone, and its value
/// fits in `usize`.
pub fn parse_count(s: &str) -> (r: Option<usize>)
    ensures
        r is Some <==> valid_count(s@),
        r matches Some(n) ==> n == dec_val(s@),
{
    let len = s.unicode_len();
    if len == 0 {
        return None;
    }
    let mut acc: usize = 0;
    let mut i: usize = 0;
    while i < len
        invariant
            0 <= i <= len,
            len == s@.len(),
            all_digits(s@.subrange(0, i as int)),
            acc == dec_val(s@.subrange(0, i as int)),
        decreases len - i,
    {
        let c = s.get_char(i);
        if c < '0' || c > '9' {
            assert(!all_digits(s@));
            return None;
        }
        let d: usize = (c as usize) - 48;
        proof {
            assert(s@.subrange(0, i + 1).drop_last() =~= s@.subrange(0, i as int));
            assert(s@.subrange(0, i + 1).last() == s@[i as int]);
        }
        let next = acc.checked_mul(10);
        match next {
            None => {
                proof {
                    if all_digits(s@) {
                        lemma_dec_val_prefix(s@, i + 1);
                    }
                }
                return None;
            },
            Some(m) => {
                let sum = m.checked_add(d);
                match sum {
                    None => {
                        proof {
                            if all_digits(s@) {
                                lemma_dec_val_prefix(s@, i + 1);
                            }
                        }
                        return None;
                    },
                    Some(v) => {
                        acc = v;
                    },
                }
            },
        }
        i = i + 1;
    }
    proof {
        assert(s@.subrange(0, len as int) =~= s@);
    }
    Some(acc)
}

/// The value paired with the first occurrence of `key` in `params`, if any.
pub open spec fn spec_param(params: Seq<(String, String)>, key: Seq<char>) -> Option<Seq<char>>
    decreases params.len(),
{
    if params.len() == 0 {
        None
    } else if params[0].0@ == key {
        Some(params[0].1@)
    } else {
        spec_param(params.drop_first(), key)
    }
}

/// Looks `key` up among the query parameters.
fn find_param<'a>(params: &'a Vec<(String, String)>, key: &String) -> (r: Option<&'a String>)
    ensures
        match r {
            Some(v) => spec_param(params@, key@) == Some(v@),
            None => spec_param(params@, key@) is None,
        },
{
    let mut i: usize = 0;
    proof {
        assert(params@.skip(0) =~= params@);
    }
    while i < params.len()
        invariant
            0 <= i <= params@.len(),
            spec_param(params@, key@) == spec_param(params@.skip(i as int), key@),
        decreases params@.len() - i,
    {
        if params[i].0 == *key {
            proof {
                assert(params@.skip(i as int)[0] == params@[i as int]);
            }
            return Some(&params[i].1);
        }
        proof {
            assert(params@.skip(i as int)[0] == params@[i as int]);
            assert(params@.skip(i as int).drop_first() =~= params@.skip(i + 1));
        }
        i = i + 1;
    }
    proof {
        assert(params@.skip(i as int).len() == 0);
    }
    None
}

/// Resolves the `start` and `end` query parameters into a [`Pagination`].
///
/// Both keys present and parseable: the parsed range. A key that does not
/// parse: `ParseError` carrying the offending value, `start` examined first.
/// Either key absent: `MissingParameters`. Whether the range fits the listed
/// collection is the caller's check, made at slice time.
pub fn extract_pagination(params: &Vec<(String, String)>) -> (r: Result<Pagination, Error>)
    ensures
        ({
            let sp = spec_param(params@, "start"@);
            let ep = spec_param(params@, "end"@);
            match r {
                Ok(p) => sp matches Some(sv) && ep matches Some(ev) && valid_count(sv)
                    && valid_count(ev) && p.start == dec_val(sv) && p.end == dec_val(ev),
                Err(e) => match e {
                    Error::MissingParameters => sp is None || ep is None,
                    Error::ParseError(bad) => sp matches Some(sv) && ep matches Some(ev) && ((
                    !valid_count(sv) && bad@ == sv) || (valid_count(sv) && !valid_count(ev)
                        && bad@ == ev)),
                    _ => false,
                },
            }
        }),
{
    let start_key = String::from_str("start");
    let end_key = String::from_str("end");
    let sv = find_param(params, &start_key);
    match sv {
        None => Err(Error::MissingParameters),
        Some(s) => {
            let ev = find_param(params, &end_key);
            match ev {
                None => Err(Error::MissingParameters),
                Some(e) => match parse_count(s.as_str()) {
                    None => Err(Error::ParseError(s.clone())),
                    Some(start) => match parse_count(e.as_str()) {
                        None => Err(Error::ParseError(e.clone())),
                        Some(end) => Ok(Pagination { start, end }),
                    },
                },
            }
        },
    }
}

} // verus!
