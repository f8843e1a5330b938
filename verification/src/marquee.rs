//! Cyclic sliding-window text scroll ("marquee") for names wider than the
//! visible character budget. A text that fits is shown unscrolled. A longer
//! text is conceptually extended with the fixed separator `" --- "`; every
//! 15 ticks the window offset advances by one character, wrapping from the
//! end of the extended text back to its start, and the visible window is the
//! `max_chars`-long substring starting at the offset, wrapping around.

use vstd::prelude::*;

verus! {

/// Ticks between two window advances.
pub const TICKS_PER_STEP: u32 = 15;

/// Character length of the fixed separator appended to a scrolled text.
pub const SEPARATOR_LEN: usize = 5;

/// The separator that joins the end of a scrolled text to its start.
pub open spec fn spec_separator() -> Seq<char> {
    seq![' ', '-', '-', '-', ' ']
}

/// A scrolled text followed by the separator.
pub open spec fn spec_extended(text: Seq<char>) -> Seq<char> {
    text + spec_separator()
}

/// The visible window: the text itself when it fits in `max_chars`,
/// otherwise the `max_chars`-long slice of the extended text that starts at
/// `offset` and wraps around its end. A stale offset at or past the end of
/// the extended text falls back to the window at the start.
pub open spec fn spec_window(text: Seq<char>, offset: int, max_chars: int) -> Seq<char> {
    if text.len() <= max_chars {
        text
    } else {
        let ext = spec_extended(text);
        let total = ext.len() as int;
        if offset >= total {
            ext.subrange(0, max_chars)
        } else {
            let end = if offset + max_chars <= total {
                offset + max_chars
            } else {
                total
            };
            let first = ext.subrange(offset, end);
            if first.len() < max_chars {
                let rem = max_chars - first.len();
                let rem2 = if rem <= total {
                    rem
                } else {
                    total
                };
                first + ext.subrange(0, rem2)
            } else {
                first
            }
        }
    }
}

/// Compute the visible window of `text` for the current `offset`.
pub fn scrolling_text(text: &str, offset: usize, max_chars: usize) -> (out: String)
    requires
        max_chars >= 1,
        text@.len() <= 0x1000_0000,
        offset <= 0x1000_0000,
        max_chars <= 0x1000_0000,
    ensures
        out@ == spec_window(text@, offset as int, max_chars as int),
{
    let n = text.unicode_len();
    if n <= max_chars {
        return text.to_owned();
    }
    let mut ext: String = text.to_owned();
    ext.append(" --- ");
    proof {
        reveal_strlit(" --- ");
        assert(" --- "@ =~= spec_separator());
        assert(ext@ =~= spec_extended(text@));
    }
    let total = n + SEPARATOR_LEN;
    if offset >= total {
        let out = ext.as_str().substring_char(0, max_chars).to_owned();
        proof {
            assert(out@ =~= spec_window(text@, offset as int, max_chars as int));
        }
        return out;
    }
    let end: usize = if max_chars <= total - offset {
        offset + max_chars
    } else {
        total
    };
    let mut out: String = ext.as_str().substring_char(offset, end).to_owned();
    if end - offset < max_chars {
        let rem: usize = max_chars - (end - offset);
        let rem2: usize = if rem <= total {
            rem
        } else {
            total
        };
        let tail = ext.as_str().substring_char(0, rem2);
        out.append(tail);
    }
    proof {
        assert(out@ =~= spec_window(text@, offset as int, max_chars as int));
    }
    out
}

/// One tick of the marquee counters for an extended text of length
/// `ext_len`: the tick counter runs to `TICKS_PER_STEP`, then resets and
/// advances the offset by one, wrapping to zero at `ext_len`.
pub open spec fn spec_marquee_step(offset: int, counter: int, ext_len: int) -> (int, int) {
    if counter + 1 >= TICKS_PER_STEP {
        let o = offset + 1;
        if o >= ext_len {
            (0, 0)
        } else {
            (o, 0)
        }
    } else {
        (offset, counter + 1)
    }
}

/// The marquee counters after `t` ticks.
pub open spec fn spec_marquee_ticks(offset: int, counter: int, ext_len: int, t: nat) -> (int, int)
    decreases t,
{
    if t == 0 {
        (offset, counter)
    } else {
        let s = spec_marquee_step(offset, counter, ext_len);
        spec_marquee_ticks(s.0, s.1, ext_len, (t - 1) as nat)
    }
}

/// Running `a + b` ticks is running `a` ticks and then `b` more.
pub proof fn lemma_marquee_ticks_add(offset: int, counter: int, ext_len: int, a: nat, b: nat)
    ensures
        spec_marquee_ticks(offset, counter, ext_len, a + b) == {
            let s = spec_marquee_ticks(offset, counter, ext_len, a);
            spec_marquee_ticks(s.0, s.1, ext_len, b)
        },
    decreases a,
{
    if a > 0 {
        let s = spec_marquee_step(offset, counter, ext_len);
        lemma_marquee_ticks_add(s.0, s.1, ext_len, (a - 1) as nat, b);
        assert(spec_marquee_ticks(offset, counter, ext_len, a + b) == spec_marquee_ticks(
            s.0,
            s.1,
            ext_len,
            (a + b - 1) as nat,
        ));
    }
}

/// While the counter has not yet reached the step threshold, ticking only
/// counts: `k` ticks from a zero counter leave the offset alone.
pub proof fn lemma_marquee_counts(offset: int, counter: int, ext_len: int, k: nat)
    requires
        0 <= counter,
        counter + k <= TICKS_PER_STEP - 1,
    ensures
        spec_marquee_ticks(offset, counter, ext_len, k) == (offset, counter + k),
    decreases k,
{
    if k > 0 {
        lemma_marquee_counts(offset, counter + 1, ext_len, (k - 1) as nat);
    }
}

/// A full block of `TICKS_PER_STEP` ticks from a zero counter advances the
/// offset exactly once, wrapping at `ext_len`.
pub proof fn lemma_marquee_block(offset: int, ext_len: int)
    requires
        0 <= offset,
    ensures
        spec_marquee_ticks(offset, 0, ext_len, TICKS_PER_STEP as nat) == (
            if offset + 1 >= ext_len {
                0int
            } else {
                offset + 1
            },
            0int,
        ),
{
    lemma_marquee_counts(offset, 0, ext_len, (TICKS_PER_STEP - 1) as nat);
    lemma_marquee_ticks_add(offset, 0, ext_len, (TICKS_PER_STEP - 1) as nat, 1);
    let s = spec_marquee_step(offset, TICKS_PER_STEP - 1, ext_len);
    assert(spec_marquee_ticks(offset, TICKS_PER_STEP - 1, ext_len, 1nat) == spec_marquee_ticks(
        s.0,
        s.1,
        ext_len,
        0nat,
    ));
}

/// From offset `offset` and a zero counter, `m` full blocks advance the
/// offset by `m` modulo `ext_len`, as long as they do not run past one full
/// cycle.
pub proof fn lemma_marquee_blocks(offset: int, ext_len: int, m: nat)
    requires
        0 <= offset < ext_len,
        offset + m <= ext_len,
    ensures
        spec_marquee_ticks(offset, 0, ext_len, (TICKS_PER_STEP as nat) * m) == (
            if offset + m == ext_len {
                0int
            } else {
                offset + m
            },
            0int,
        ),
    decreases m,
{
    if m == 0 {
    } else {
        lemma_marquee_block(offset, ext_len);
        lemma_marquee_ticks_add(
            offset,
            0,
            ext_len,
            TICKS_PER_STEP as nat,
            (TICKS_PER_STEP as nat) * ((m - 1) as nat),
        );
        assert((TICKS_PER_STEP as nat) * m == TICKS_PER_STEP as nat + (TICKS_PER_STEP as nat) * (
        (m - 1) as nat)) by (nonlinear_arith)
            requires
                m >= 1,
        ;
        if offset + 1 >= ext_len {
            assert(offset + 1 == ext_len);
            assert(m == 1);
            assert(spec_marquee_ticks(0, 0, ext_len, 0nat) == (0int, 0int));
        } else {
            lemma_marquee_blocks(offset + 1, ext_len, (m - 1) as nat);
        }
    }
}

/// The marquee is cyclic and restartable: starting from offset zero and a
/// zero counter, after `TICKS_PER_STEP * ext_len` ticks both counters are
/// back at zero.
pub proof fn lemma_marquee_cycle(ext_len: int)
    requires
        ext_len >= 1,
    ensures
        spec_marquee_ticks(0, 0, ext_len, (TICKS_PER_STEP as nat) * (ext_len as nat)) == (
            0int,
            0int,
        ),
{
    lemma_marquee_blocks(0, ext_len, ext_len as nat);
}

/// From a rest start inside one cycle, the counters stay inside it: the
/// offset below `ext_len` and the counter below the step threshold.
pub proof fn lemma_marquee_ticks_bounds(offset: int, counter: int, ext_len: int, t: nat)
    requires
        0 <= offset < ext_len,
        0 <= counter < TICKS_PER_STEP,
    ensures
        0 <= spec_marquee_ticks(offset, counter, ext_len, t).0 < ext_len,
        0 <= spec_marquee_ticks(offset, counter, ext_len, t).1 < TICKS_PER_STEP,
    decreases t,
{
    if t > 0 {
        let s = spec_marquee_step(offset, counter, ext_len);
        lemma_marquee_ticks_bounds(s.0, s.1, ext_len, (t - 1) as nat);
    }
}

} // verus!
