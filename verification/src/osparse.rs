//! Parsers for the OS toggle tools' text output: the sink-volume listing,
//! whose first line carries a percentage, and the radio-block listing, whose
//! `Soft blocked:` line says whether the radio is off. The tools run outside
//! the library; only their output text comes through here, and a reading
//! that cannot be parsed falls back to the documented defaults.

use vstd::prelude::*;
use crate::text::{
    spec_line_split, spec_find_sub, spec_digits_val, spec_is_digit, spec_all_digits,
    spec_contains, split_lines, str_chars, find_char, rfind_char_before, parse_u8_range,
    contains_sub,
};

verus! {

/// Index of the last `c` strictly before `end` in `s`, `-1` when none.
pub open spec fn spec_rfind_before(s: Seq<char>, c: char, end: int) -> int
    decreases end,
{
    if end <= 0 {
        -1
    } else if s[end - 1] == c {
        end - 1
    } else {
        spec_rfind_before(s, c, end - 1)
    }
}

/// A backwards scan that stopped at the last occurrence has measured
/// `spec_rfind_before`.
proof fn lemma_rfind_found(s: Seq<char>, c: char, end: int, i: int)
    requires
        0 <= i < end,
        s[i] == c,
        forall|j: int| i < j < end ==> s[j] != c,
    ensures
        spec_rfind_before(s, c, end) == i,
    decreases end,
{
    if end - 1 > i {
        lemma_rfind_found(s, c, end - 1, i);
    }
}

proof fn lemma_rfind_none(s: Seq<char>, c: char, end: int)
    requires
        forall|j: int| 0 <= j < end ==> s[j] != c,
    ensures
        spec_rfind_before(s, c, end) == -1,
    decreases end,
{
    if end > 0 {
        lemma_rfind_none(s, c, end - 1);
    }
}

/// The volume percentage that the sink-volume listing reports: on its first
/// line, the digits between the last space before the first `%` and that
/// `%`, read as a byte. A listing without a `%`, or whose digits do not
/// parse, reads as the fallback of 50.
pub open spec fn spec_volume_of(s: Seq<char>) -> int {
    let line = spec_line_split(s)[0];
    let p = spec_find_sub(line, seq!['%']);
    if p < 0 {
        50
    } else {
        let start = (if spec_rfind_before(line, ' ', p) < 0 {
            0int
        } else {
            spec_rfind_before(line, ' ', p)
        }) + 1;
        if start > p {
            50
        } else {
            let digits = line.subrange(start, p);
            if digits.len() > 0 && spec_all_digits(digits) && spec_digits_val(digits) <= 255 {
                spec_digits_val(digits)
            } else {
                50
            }
        }
    }
}

/// Read the volume percentage out of the sink-volume listing.
pub fn parse_volume_output(s: &str) -> (vol: u8)
    ensures
        vol == spec_volume_of(s@),
{
    let v = str_chars(s);
    let lines = split_lines(&v);
    proof {
        crate::text::lemma_line_split_len(s@);
        assert(lines@.len() == lines.deep_view().len());
    }
    let line = &lines[0];
    proof {
        assert(line@ == lines.deep_view()[0]);
        assert(line@ == spec_line_split(s@)[0]);
    }
    let p = match find_char(line, '%') {
        Option::Some(p) => p,
        Option::None => {
            proof {
                assert forall|k: int| 0 <= k && k + seq!['%'].len() <= line@.len()
                    implies !crate::text::spec_match_at(line@, seq!['%'], k) by {
                    assert(line@.subrange(k, k + 1)[0] == line@[k]);
                }
                crate::text::lemma_find_sub_none(line@, seq!['%']);
            }
            return 50;
        },
    };
    proof {
        assert(line@.subrange(p as int, p + 1) =~= seq!['%']);
        assert forall|k: int| 0 <= k < p implies !crate::text::spec_match_at(
            line@,
            seq!['%'],
            k,
        ) by {
            assert(line@.subrange(k, k + 1)[0] == line@[k]);
        }
        crate::text::lemma_find_sub_found(line@, seq!['%'], p as int);
    }
    let start: usize = match rfind_char_before(line, ' ', p) {
        Option::Some(i) => {
            proof {
                lemma_rfind_found(line@, ' ', p as int, i as int);
            }
            i + 1
        },
        Option::None => {
            proof {
                lemma_rfind_none(line@, ' ', p as int);
            }
            1
        },
    };
    if start > p {
        return 50;
    }
    match parse_u8_range(line, start, p) {
        Option::Some(vol) => vol,
        Option::None => 50,
    }
}

/// Whether the radio-block listing reports the radio as on: on the first
/// line that mentions `Soft blocked:`, on means no `yes`; a listing without
/// such a line reads as on.
pub open spec fn spec_wifi_of_lines(ls: Seq<Seq<char>>) -> bool
    decreases ls.len(),
{
    if ls.len() == 0 {
        true
    } else if spec_contains(ls[0], seq!['S', 'o', 'f', 't', ' ', 'b', 'l', 'o', 'c', 'k', 'e', 'd', ':']) {
        !spec_contains(ls[0], seq!['y', 'e', 's'])
    } else {
        spec_wifi_of_lines(ls.drop_first())
    }
}

/// Read the radio state out of the radio-block listing.
pub fn parse_wifi_output(s: &str) -> (on: bool)
    ensures
        on == spec_wifi_of_lines(spec_line_split(s@)),
{
    let v = str_chars(s);
    let lines = split_lines(&v);
    let ghost ls = spec_line_split(s@);
    let mut key: Vec<char> = Vec::new();
    key.push('S');
    key.push('o');
    key.push('f');
    key.push('t');
    key.push(' ');
    key.push('b');
    key.push('l');
    key.push('o');
    key.push('c');
    key.push('k');
    key.push('e');
    key.push('d');
    key.push(':');
    let mut yes: Vec<char> = Vec::new();
    yes.push('y');
    yes.push('e');
    yes.push('s');
    proof {
        assert(key@ =~= seq!['S', 'o', 'f', 't', ' ', 'b', 'l', 'o', 'c', 'k', 'e', 'd', ':']);
        assert(yes@ =~= seq!['y', 'e', 's']);
        assert(ls.skip(0) =~~= ls);
    }
    let mut i: usize = 0;
    while i < lines.len()
        invariant
            i <= lines@.len(),
            ls == spec_line_split(s@),
            lines.deep_view() == ls,
            key@ =~= seq!['S', 'o', 'f', 't', ' ', 'b', 'l', 'o', 'c', 'k', 'e', 'd', ':'],
            yes@ =~= seq!['y', 'e', 's'],
            spec_wifi_of_lines(ls.skip(i as int)) == spec_wifi_of_lines(ls),
        decreases lines@.len() - i,
    {
        proof {
            assert(ls.skip(i as int)[0] == lines@[i as int]@);
            assert(ls.skip(i as int).drop_first() =~~= ls.skip(i + 1));
        }
        proof {
            assert(ls.skip(i as int).len() > 0);
        }
        if contains_sub(&lines[i], &key) {
            let on = !contains_sub(&lines[i], &yes);
            proof {
                assert(spec_wifi_of_lines(ls.skip(i as int)) == on);
            }
            return on;
        }
        i = i + 1;
    }
    proof {
        assert(ls.skip(lines@.len() as int) =~~= Seq::<Seq<char>>::empty());
    }
    true
}

} // verus!
