//! The target resolver.
//!
//! Free-form text is scanned for numeric tokens: maximal runs of decimal
//! digits, read in order of appearance and not deduplicated. Each token is one
//! target identifier; a token too large for an identifier is skipped rather
//! than failing the whole resolution. An input with no usable token resolves
//! to nothing, which the engine reports as `InvalidInput`.

use vstd::prelude::*;

use crate::errors::EngineError;

verus! {

/// A decimal digit.
pub open spec fn is_digit(c: char) -> bool {
    48 <= c as u32 <= 57
}

/// The value of a decimal digit.
pub open spec fn digit_val(c: char) -> nat {
    (c as u32 - 48) as nat
}

/// The identifier a completed token stands for: none when no token was in
/// progress or its value does not fit an identifier.
pub open spec fn token_ids(cur: Option<nat>) -> Seq<u64> {
    match cur {
        Option::None => Seq::empty(),
        Option::Some(v) => if v <= u64::MAX {
            seq![v as u64]
        } else {
            Seq::empty()
        },
    }
}

/// The identifiers of the numeric tokens of `s`, scanned left to right with
/// `cur` the value of the token in progress, if one is.
pub open spec fn scan_ids(s: Seq<char>, cur: Option<nat>) -> Seq<u64>
    decreases s.len(),
{
    if s.len() == 0 {
        token_ids(cur)
    } else {
        let c = s[0];
        let rest = s.drop_first();
        if is_digit(c) {
            let v = match cur {
                Option::None => digit_val(c),
                Option::Some(v0) => v0 * 10 + digit_val(c),
            };
            scan_ids(rest, Option::Some(v))
        } else {
            token_ids(cur) + scan_ids(rest, Option::None)
        }
    }
}

/// The identifiers of all numeric tokens of `s`, in order of appearance.
pub open spec fn ids_in(s: Seq<char>) -> Seq<u64> {
    scan_ids(s, Option::None)
}

/// Extract every numeric token of the message as a target identifier, in
/// order of appearance, keeping duplicates and skipping tokens too large for
/// an identifier.
pub fn user_ids_from(message: &str) -> (r: Vec<u64>)
    ensures
        r@ == ids_in(message@),
{
    let ghost s = message@;
    let n = message.unicode_len();
    let mut r: Vec<u64> = Vec::new();
    let mut i: usize = 0;
    let mut acc: u64 = 0;
    let mut in_token: bool = false;
    let mut too_big: bool = false;
    let ghost mut cur: Option<nat> = Option::None;
    proof {
        assert(s.skip(0) =~= s);
    }
    while i < n
        invariant
            0 <= i <= n,
            n == s.len(),
            s == message@,
            in_token <==> cur is Some,
            !in_token ==> !too_big,
            in_token && !too_big ==> cur == Option::Some(acc as nat),
            in_token && too_big ==> cur->Some_0 > u64::MAX,
            ids_in(s) == r@ + scan_ids(s.skip(i as int), cur),
        decreases n - i,
    {
        let c = message.get_char(i);
        let u = c as u32;
        let ghost cur0 = cur;
        let ghost tail = s.skip(i as int);
        proof {
            assert(tail[0] == s[i as int]);
            assert(tail.drop_first() =~= s.skip(i + 1 as int));
        }
        if 48 <= u && u <= 57 {
            let d = (u - 48) as u64;
            proof {
                assert(is_digit(s[i as int]));
                assert(digit_val(s[i as int]) == d as nat);
            }
            if !in_token {
                acc = d;
                in_token = true;
                too_big = false;
                proof {
                    cur = Option::Some(digit_val(s[i as int]));
                }
            } else if too_big {
                proof {
                    let v0 = cur0->Some_0;
                    cur = Option::Some(v0 * 10 + digit_val(s[i as int]));
                    assert(v0 * 10 + digit_val(s[i as int]) > u64::MAX) by (nonlinear_arith)
                        requires
                            v0 > u64::MAX,
                    ;
                }
            } else {
                proof {
                    cur = Option::Some((acc as nat) * 10 + digit_val(s[i as int]));
                }
                match acc.checked_mul(10) {
                    Some(m) => match m.checked_add(d) {
                        Some(v2) => {
                            acc = v2;
                        },
                        None => {
                            too_big = true;
                        },
                    },
                    None => {
                        too_big = true;
                    },
                }
                proof {
                    if too_big {
                        assert(cur->Some_0 > u64::MAX);
                    } else {
                        assert(cur == Option::Some(acc as nat));
                    }
                }
            }
            proof {
                assert(scan_ids(tail, cur0) == scan_ids(s.skip(i + 1 as int), cur));
            }
        } else {
            proof {
                assert(!is_digit(s[i as int]));
            }
            let ghost tok = token_ids(cur0);
            let ghost r0 = r@;
            proof {
                assert(scan_ids(tail, cur0) == tok + scan_ids(s.skip(i + 1 as int), Option::None));
            }
            if in_token && !too_big {
                r.push(acc);
                proof {
                    assert(tok =~= seq![acc]);
                    assert(r@ =~= r0 + tok);
                }
            } else {
                proof {
                    assert(tok =~= Seq::<u64>::empty());
                    assert(r@ =~= r0 + tok);
                }
            }
            in_token = false;
            too_big = false;
            proof {
                cur = Option::None;
                assert(r0 + (tok + scan_ids(s.skip(i + 1 as int), cur)) =~= (r0 + tok) + scan_ids(
                    s.skip(i + 1 as int),
                    cur,
                ));
                assert(ids_in(s) == r@ + scan_ids(s.skip(i + 1 as int), cur));
            }
        }
        i = i + 1;
    }
    proof {
        assert(s.skip(n as int) =~= Seq::<char>::empty());
        assert(scan_ids(s.skip(n as int), cur) == token_ids(cur));
    }
    if in_token && !too_big {
        let ghost r0 = r@;
        r.push(acc);
        proof {
            assert(r0 + token_ids(cur) =~= r@);
        }
    } else {
        proof {
            assert(r@ + token_ids(cur) =~= r@);
        }
    }
    r
}

/// Resolve the targets of a request; an input with no usable numeric token is
/// rejected as `InvalidInput` before anything else happens.
pub fn resolve_targets(text: &str) -> (r: Result<Vec<u64>, EngineError>)
    ensures
        match r {
            Ok(v) => v@ == ids_in(text@) && v@.len() > 0,
            Err(e) => e == EngineError::InvalidInput && ids_in(text@).len() == 0,
        },
{
    let ids = user_ids_from(text);
    if ids.len() == 0 {
        Err(EngineError::InvalidInput)
    } else {
        Ok(ids)
    }
}

} // verus!
