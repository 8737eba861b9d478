//! Identifiers are exchanged as text-encoded 128-bit values in the usual
//! hyphenated form: 32 hexadecimal digits with separators after the 8th,
//! 12th, 16th and 20th digit. A malformed identifier is a caller input
//! error, distinct from "not found".

use vstd::prelude::*;
use vstd::arithmetic::div_mod::lemma_fundamental_div_mod;
use vstd::arithmetic::div_mod::lemma_fundamental_div_mod_converse_div;
use vstd::arithmetic::div_mod::lemma_mod_bound;
use vstd::arithmetic::div_mod::lemma_mod_multiples_vanish;
use vstd::arithmetic::div_mod::lemma_small_mod;
use vstd::string::StrSliceExecFns;
use vstd::string::StringExecFns;

use crate::repo::error::RepoError;

verus! {

/// Whether `c` is a hexadecimal digit, in either case.
pub open spec fn is_hex_digit(c: char) -> bool {
    (48 <= c as int <= 57) || (97 <= c as int <= 102) || (65 <= c as int <= 70)
}

/// The value of a hexadecimal digit; meaningful when `is_hex_digit(c)`.
pub open spec fn hex_val(c: char) -> int {
    if 48 <= c as int <= 57 {
        c as int - 48
    } else if 97 <= c as int <= 102 {
        c as int - 87
    } else {
        c as int - 55
    }
}

/// Whether position `i` of the 36-character form holds a separator.
pub open spec fn is_sep_pos(i: int) -> bool {
    i == 8 || i == 13 || i == 18 || i == 23
}

/// Whether `s` is a well-formed text-encoded identifier: 36 characters,
/// hyphens at the four separator positions, hexadecimal digits elsewhere.
pub open spec fn is_uuid_text(s: Seq<char>) -> bool {
    &&& s.len() == 36
    &&& forall|i: int|
        0 <= i < 36 ==> if is_sep_pos(i) {
            (#[trigger] s[i]) == '-'
        } else {
            is_hex_digit(s[i])
        }
}

/// How many separator positions lie before position `n`.
pub open spec fn seps_before(n: int) -> int {
    (if n > 8 {
        1int
    } else {
        0int
    }) + (if n > 13 {
        1int
    } else {
        0int
    }) + (if n > 18 {
        1int
    } else {
        0int
    }) + (if n > 23 {
        1int
    } else {
        0int
    })
}

/// Sixteen to the power `d`.
pub open spec fn p16(d: int) -> int
    decreases d,
{
    if d <= 0 {
        1
    } else {
        16 * p16(d - 1)
    }
}

/// The value of the first `n` characters, hyphens contributing nothing.
pub open spec fn uuid_prefix_value(s: Seq<char>, n: int) -> int
    decreases n,
{
    if n <= 0 {
        0
    } else if s[n - 1] == '-' {
        uuid_prefix_value(s, n - 1)
    } else {
        16 * uuid_prefix_value(s, n - 1) + hex_val(s[n - 1])
    }
}

/// The 128-bit value a well-formed text-encoded identifier denotes.
pub open spec fn uuid_value(s: Seq<char>) -> int {
    uuid_prefix_value(s, 36)
}

/// `p16` is positive.
proof fn lemma_p16_pos(d: int)
    ensures
        p16(d) >= 1,
    decreases d,
{
    if d > 0 {
        lemma_p16_pos(d - 1);
    }
}

/// `p16` grows monotonically.
proof fn lemma_p16_le(d1: int, d2: int)
    requires
        d1 <= d2,
    ensures
        p16(d1) <= p16(d2),
    decreases d2 - d1,
{
    lemma_p16_pos(d1);
    if d1 < d2 {
        lemma_p16_le(d1, d2 - 1);
        lemma_p16_pos(d2 - 1);
    }
}

/// Thirty-two hexadecimal digits fit exactly in 128 bits.
proof fn lemma_p16_32()
    ensures
        p16(32) == 0x100000000000000000000000000000000,
{
    reveal_with_fuel(p16, 33);
}

/// The prefix value is bounded by sixteen to the number of digits read.
proof fn lemma_uuid_prefix_bound(s: Seq<char>, n: int)
    requires
        is_uuid_text(s),
        0 <= n <= 36,
    ensures
        0 <= uuid_prefix_value(s, n) < p16(n - seps_before(n)),
    decreases n,
{
    if n > 0 {
        lemma_uuid_prefix_bound(s, n - 1);
        if is_sep_pos(n - 1) {
            assert(s[n - 1] == '-');
        } else {
            assert(is_hex_digit(s[n - 1]));
            assert(s[n - 1] != '-');
            assert(0 <= hex_val(s[n - 1]) <= 15);
            assert(p16(n - seps_before(n)) == 16 * p16(n - 1 - seps_before(n - 1)));
        }
    }
}

/// The character of a hexadecimal digit, in lower case.
pub open spec fn hex_char(d: int) -> char {
    if d == 0 {
        '0'
    } else if d == 1 {
        '1'
    } else if d == 2 {
        '2'
    } else if d == 3 {
        '3'
    } else if d == 4 {
        '4'
    } else if d == 5 {
        '5'
    } else if d == 6 {
        '6'
    } else if d == 7 {
        '7'
    } else if d == 8 {
        '8'
    } else if d == 9 {
        '9'
    } else if d == 10 {
        'a'
    } else if d == 11 {
        'b'
    } else if d == 12 {
        'c'
    } else if d == 13 {
        'd'
    } else if d == 14 {
        'e'
    } else {
        'f'
    }
}

/// The canonical text of a 128-bit value: lower-case hexadecimal digits,
/// most significant first, with hyphens at the separator positions.
pub open spec fn uuid_text(v: u128) -> Seq<char> {
    Seq::new(
        36,
        |i: int|
            if is_sep_pos(i) {
                '-'
            } else {
                hex_char((v as int / p16(31 - (i - seps_before(i)))) % 16)
            },
    )
}

/// The canonical text of a list of identifiers, comma-separated.
pub open spec fn uuid_list_text(ids: Seq<u128>) -> Seq<char>
    decreases ids.len(),
{
    if ids.len() == 0 {
        Seq::empty()
    } else if ids.len() == 1 {
        uuid_text(ids[0])
    } else {
        uuid_list_text(ids.drop_last()) + ", "@ + uuid_text(ids.last())
    }
}

/// Two sequences agreeing on their first `n` characters denote the same
/// prefix value.
proof fn lemma_uuid_prefix_agrees(s1: Seq<char>, s2: Seq<char>, n: int)
    requires
        0 <= n <= s1.len(),
        n <= s2.len(),
        forall|j: int| 0 <= j < n ==> s1[j] == #[trigger] s2[j],
    ensures
        uuid_prefix_value(s1, n) == uuid_prefix_value(s2, n),
    decreases n,
{
    if n > 0 {
        lemma_uuid_prefix_agrees(s1, s2, n - 1);
    }
}

/// The single-character text of a hexadecimal digit, in lower case.
fn hex_digit_str(nibble: u128) -> (r: &'static str)
    requires
        nibble < 16,
    ensures
        r@.len() == 1,
        is_hex_digit(r@[0]),
        hex_val(r@[0]) == nibble,
        r@[0] == hex_char(nibble as int),
{
    match nibble {
        0 => {
            proof {
                reveal_strlit("0");
            }
            "0"
        },
        1 => {
            proof {
                reveal_strlit("1");
            }
            "1"
        },
        2 => {
            proof {
                reveal_strlit("2");
            }
            "2"
        },
        3 => {
            proof {
                reveal_strlit("3");
            }
            "3"
        },
        4 => {
            proof {
                reveal_strlit("4");
            }
            "4"
        },
        5 => {
            proof {
                reveal_strlit("5");
            }
            "5"
        },
        6 => {
            proof {
                reveal_strlit("6");
            }
            "6"
        },
        7 => {
            proof {
                reveal_strlit("7");
            }
            "7"
        },
        8 => {
            proof {
                reveal_strlit("8");
            }
            "8"
        },
        9 => {
            proof {
                reveal_strlit("9");
            }
            "9"
        },
        10 => {
            proof {
                reveal_strlit("a");
            }
            "a"
        },
        11 => {
            proof {
                reveal_strlit("b");
            }
            "b"
        },
        12 => {
            proof {
                reveal_strlit("c");
            }
            "c"
        },
        13 => {
            proof {
                reveal_strlit("d");
            }
            "d"
        },
        14 => {
            proof {
                reveal_strlit("e");
            }
            "e"
        },
        _ => {
            proof {
                reveal_strlit("f");
            }
            "f"
        },
    }
}

/// Render a 128-bit value as exactly its canonical text. The result
/// always parses back to the same value.
pub fn uuid_text_of(v: u128) -> (r: String)
    ensures
        r@ == uuid_text(v),
        is_uuid_text(r@),
        uuid_value(r@) == v,
{
    let mut div: u128 = 1;
    let mut k: usize = 0;
    while k < 31
        invariant
            k <= 31,
            div == p16(k as int),
        decreases 31 - k,
    {
        proof {
            lemma_p16_le(k as int + 1, 31);
            lemma_p16_32();
        }
        div = div * 16;
        k = k + 1;
    }
    let mut s = String::new();
    let mut w: u128 = v;
    let mut i: usize = 0;
    proof {
        lemma_p16_32();
    }
    while i < 36
        invariant
            i <= 36,
            s@.len() == i,
            forall|j: int|
                0 <= j < i ==> if is_sep_pos(j) {
                    (#[trigger] s@[j]) == '-'
                } else {
                    is_hex_digit(s@[j])
                },
            forall|j: int| 0 <= j < i ==> (#[trigger] s@[j]) == uuid_text(v)[j],
            seps_before(i as int) <= 4,
            i - seps_before(i as int) <= 32,
            i as int - seps_before(i as int) < 32 ==> div == p16(
                31 - (i as int - seps_before(i as int)),
            ),
            w < p16(32 - (i as int - seps_before(i as int))),
            v == uuid_prefix_value(s@, i as int) * p16(32 - (i as int - seps_before(i as int)))
                + w,
        decreases 36 - i,
    {
        let ghost d = i as int - seps_before(i as int);
        let ghost s0 = s@;
        let ghost p0 = uuid_prefix_value(s@, i as int);
        if i == 8 || i == 13 || i == 18 || i == 23 {
            s.append("-");
            proof {
                reveal_strlit("-");
                lemma_uuid_prefix_agrees(s@, s0, i as int);
                assert(s@[i as int] == '-');
                assert(s@[i as int] == uuid_text(v)[i as int]);
                assert(uuid_prefix_value(s@, i as int + 1) == p0);
                assert(seps_before(i as int + 1) == seps_before(i as int) + 1);
            }
        } else {
            proof {
                assert(d < 32);
                lemma_p16_pos(31 - d);
                lemma_fundamental_div_mod(w as int, div as int);
                lemma_mod_bound(w as int, div as int);
                assert(p16(32 - d) == 16 * p16(31 - d));
                assert(w < 16 * div);
                assert(w / div < 16) by (nonlinear_arith)
                    requires
                        div > 0,
                        w < 16 * div,
                ;
            }
            let nibble = w / div;
            let w2 = w % div;
            let c = hex_digit_str(nibble);
            s.append(c);
            proof {
                lemma_uuid_prefix_agrees(s@, s0, i as int);
                assert(s@[i as int] == c@[0]);
                assert(s@[i as int] != '-');
                assert(uuid_prefix_value(s@, i as int + 1) == 16 * p0 + nibble);
                assert(seps_before(i as int + 1) == seps_before(i as int));
                assert(v == (16 * p0 + nibble) * p16(31 - d) + w2) by (nonlinear_arith)
                    requires
                        v == p0 * p16(32 - d) + w,
                        p16(32 - d) == 16 * p16(31 - d),
                        w == div * nibble + w2,
                        div == p16(31 - d),
                ;
                lemma_fundamental_div_mod_converse_div(
                    v as int,
                    p16(31 - d),
                    16 * p0 + nibble,
                    w2 as int,
                );
                lemma_mod_multiples_vanish(p0, nibble as int, 16);
                lemma_small_mod(nibble as nat, 16nat);
                assert((v as int / p16(31 - d)) % 16 == nibble);
                assert(s@[i as int] == uuid_text(v)[i as int]);
                if d + 1 < 32 {
                    assert(p16(31 - d) == 16 * p16(30 - d));
                    assert(div / 16 == p16(30 - d));
                }
            }
            w = w2;
            div = div / 16;
        }
        i = i + 1;
    }
    proof {
        assert(seps_before(36) == 4);
        assert(p16(0) == 1);
        assert(w == 0);
        assert(uuid_value(s@) == v);
        assert(s@ =~= uuid_text(v));
    }
    s
}

/// Render a list of identifiers as exactly its canonical comma-separated
/// text.
pub fn uuid_list_text_of(ids: &Vec<u128>) -> (r: String)
    ensures
        r@ == uuid_list_text(ids@),
{
    let mut s = String::new();
    let mut i: usize = 0;
    while i < ids.len()
        invariant
            i <= ids@.len(),
            s@ == uuid_list_text(ids@.take(i as int)),
        decreases ids@.len() - i,
    {
        if i > 0 {
            s.append(", ");
        }
        let t = uuid_text_of(ids[i]);
        s.append(t.as_str());
        proof {
            assert(ids@.take(i + 1).drop_last() =~= ids@.take(i as int));
            assert(ids@.take(i + 1).last() == ids@[i as int]);
            assert(s@ =~= uuid_list_text(ids@.take(i + 1)));
        }
        i = i + 1;
    }
    proof {
        assert(ids@.take(ids@.len() as int) =~= ids@);
    }
    s
}

/// Parse a text-encoded identifier into its 128-bit value. Exactly the
/// well-formed 36-character texts are accepted; everything else is an
/// invalid-identifier error.
pub fn parse_uuid(s: &str) -> (r: Result<u128, RepoError>)
    ensures
        match r {
            Ok(v) => is_uuid_text(s@) && v == uuid_value(s@),
            Err(e) => e == RepoError::IdInvalidUuid && !is_uuid_text(s@),
        },
{
    let n = s.unicode_len();
    if n != 36 {
        return Err(RepoError::IdInvalidUuid);
    }
    let mut i: usize = 0;
    while i < 36
        invariant
            s@.len() == 36,
            i <= 36,
            forall|j: int|
                0 <= j < i ==> if is_sep_pos(j) {
                    (#[trigger] s@[j]) == '-'
                } else {
                    is_hex_digit(s@[j])
                },
        decreases 36 - i,
    {
        let c = s.get_char(i);
        if i == 8 || i == 13 || i == 18 || i == 23 {
            if c != '-' {
                return Err(RepoError::IdInvalidUuid);
            }
        } else {
            let u = c as u32;
            let hex = (48 <= u && u <= 57) || (97 <= u && u <= 102) || (65 <= u && u <= 70);
            if !hex {
                return Err(RepoError::IdInvalidUuid);
            }
        }
        i = i + 1;
    }
    let mut acc: u128 = 0;
    let mut i: usize = 0;
    while i < 36
        invariant
            is_uuid_text(s@),
            i <= 36,
            acc == uuid_prefix_value(s@, i as int),
        decreases 36 - i,
    {
        let c = s.get_char(i);
        if !(i == 8 || i == 13 || i == 18 || i == 23) {
            let u = c as u32;
            let h: u128 = if 48 <= u && u <= 57 {
                (u - 48) as u128
            } else if 97 <= u && u <= 102 {
                (u - 87) as u128
            } else {
                (u - 55) as u128
            };
            proof {
                assert(is_hex_digit(s@[i as int]));
                assert(h == hex_val(s@[i as int]));
                lemma_uuid_prefix_bound(s@, i as int + 1);
                lemma_p16_le(i as int + 1 - seps_before(i as int + 1), 32);
                lemma_p16_32();
                assert(uuid_prefix_value(s@, i as int + 1) == 16 * acc + hex_val(s@[i as int]));
            }
            acc = acc * 16 + h;
        } else {
            proof {
                assert(s@[i as int] == '-');
            }
        }
        i = i + 1;
    }
    Ok(acc)
}

} // verus!
