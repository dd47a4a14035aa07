//! The decoder's line protocol: each line of the serial stream that carries
//! a frame reads `[LOCK] HH:MM:SS:FF | RR.RRfps` (a `;` may separate the
//! frame number, and `FREE` replaces `LOCK` while the decoder coasts). The
//! parser finds the earliest such pattern in a line and extracts the frame;
//! lines that carry none, or carry an unusable frame rate, are ignored.

use vstd::prelude::*;

verus! {

use crate::sync_logic::{FrameStatus, LtcFrame};

/// An ASCII decimal digit.
pub open spec fn is_digit(b: u8) -> bool {
    48 <= b <= 57
}

/// The numeric value of an ASCII digit.
pub open spec fn digit_val(b: u8) -> int {
    b - 48
}

/// The whitespace bytes the pattern's gaps accept.
pub open spec fn is_space(b: u8) -> bool {
    b == 32 || b == 9 || b == 10 || b == 13 || b == 0x0b || b == 0x0c
}

/// A byte the frame-rate field may contain: a digit or a dot.
pub open spec fn is_rate_byte(b: u8) -> bool {
    is_digit(b) || b == 46
}

/// The first index at or after `i` holding a non-whitespace byte (or the
/// end of the sequence).
pub open spec fn ws_end(s: Seq<u8>, i: int) -> int
    recommends
        0 <= i <= s.len(),
    decreases s.len() - i,
{
    if i >= s.len() {
        i
    } else if is_space(s[i]) {
        ws_end(s, i + 1)
    } else {
        i
    }
}

/// The first index at or after `i` holding a byte the rate field cannot
/// contain (or the end of the sequence).
pub open spec fn rate_end(s: Seq<u8>, i: int) -> int
    recommends
        0 <= i <= s.len(),
    decreases s.len() - i,
{
    if i >= s.len() {
        i
    } else if is_rate_byte(s[i]) {
        rate_end(s, i + 1)
    } else {
        i
    }
}

/// Two ASCII digits sit at position `i`.
pub open spec fn two_digits_at(s: Seq<u8>, i: int) -> bool {
    i + 2 <= s.len() && is_digit(s[i]) && is_digit(s[i + 1])
}

/// The value of the two-digit number at position `i`.
pub open spec fn two_digit_val(s: Seq<u8>, i: int) -> int {
    digit_val(s[i]) * 10 + digit_val(s[i + 1])
}

/// The `[LOCK]` tag sits at position `i`.
pub open spec fn lock_tag_at(s: Seq<u8>, i: int) -> bool {
    i + 6 <= s.len() && s[i] == 91 && s[i + 1] == 76 && s[i + 2] == 79 && s[i + 3] == 67
        && s[i + 4] == 75 && s[i + 5] == 93
}

/// The `[FREE]` tag sits at position `i`.
pub open spec fn free_tag_at(s: Seq<u8>, i: int) -> bool {
    i + 6 <= s.len() && s[i] == 91 && s[i + 1] == 70 && s[i + 2] == 82 && s[i + 3] == 69
        && s[i + 4] == 69 && s[i + 5] == 93
}

/// Every byte of the sequence is an ASCII digit.
pub open spec fn all_digits(t: Seq<u8>) -> bool {
    forall|k: int| 0 <= k < t.len() ==> is_digit(#[trigger] t[k])
}

/// The number written by a sequence of ASCII digits, most significant
/// first.
pub open spec fn digits_value(t: Seq<u8>) -> int
    decreases t.len(),
{
    if t.len() == 0 {
        0
    } else {
        digits_value(t.drop_last()) * 10 + digit_val(t.last())
    }
}

/// The first index at or after `i` holding a dot (or the end).
pub open spec fn first_dot(t: Seq<u8>, i: int) -> int
    recommends
        0 <= i <= t.len(),
    decreases t.len() - i,
{
    if i >= t.len() {
        i
    } else if t[i] == 46 {
        i
    } else {
        first_dot(t, i + 1)
    }
}

/// The milliseconds-scale value of a fraction written after the dot: its
/// first three digits, padded with zeros — further digits are beyond the
/// thousandth-of-a-frame resolution the engine keeps and are ignored.
pub open spec fn frac_millis(fp: Seq<u8>) -> int {
    if fp.len() >= 3 {
        digits_value(fp.take(3))
    } else if fp.len() == 2 {
        digits_value(fp) * 10
    } else if fp.len() == 1 {
        digits_value(fp) * 100
    } else {
        0
    }
}

/// The frame-rate field parsed to thousandths of a frame per second: an
/// optional integer part and an optional fraction around at most one dot,
/// with at least one digit in all. Rates of zero, rates above what `u32`
/// can hold in thousandths, and malformed fields (a second dot) are
/// rejected.
pub open spec fn spec_parse_millifps(t: Seq<u8>) -> Option<int> {
    let k = first_dot(t, 0);
    let ip = t.take(k);
    let fp = if k < t.len() {
        t.skip(k + 1)
    } else {
        Seq::<u8>::empty()
    };
    if !all_digits(ip) || !all_digits(fp) || (ip.len() == 0 && fp.len() == 0) {
        None
    } else {
        let v = digits_value(ip) * 1000 + frac_millis(fp);
        if v <= 0 || v > u32::MAX {
            None
        } else {
            Some(v)
        }
    }
}

/// What a successful pattern match at one position extracts.
pub struct LtcLineMatch {
    pub lock: bool,
    pub hours: int,
    pub minutes: int,
    pub seconds: int,
    pub frames: int,
    pub millifps: int,
}

/// The frame pattern matched at position `i` of the line: a `[LOCK]` or
/// `[FREE]` tag, whitespace, `HH:MM:SS` then `:` or `;` and the two-digit
/// frame number, whitespace, `|`, whitespace, and the frame-rate field
/// followed directly by `fps`. Gaps take one or more whitespace bytes; the
/// rate field is the maximal run of digits and dots.
pub open spec fn spec_match_at(s: Seq<u8>, i: int) -> Option<LtcLineMatch>
    recommends
        0 <= i <= s.len(),
{
    if !lock_tag_at(s, i) && !free_tag_at(s, i) {
        None
    } else {
        let p = ws_end(s, i + 6);
        if p == i + 6 || p + 11 > s.len() {
            None
        } else if !(two_digits_at(s, p) && s[p + 2] == 58 && two_digits_at(s, p + 3) && s[p + 5]
            == 58 && two_digits_at(s, p + 6) && (s[p + 8] == 58 || s[p + 8] == 59)
            && two_digits_at(s, p + 9)) {
            None
        } else {
            let q = ws_end(s, p + 11);
            if q == p + 11 || q >= s.len() || s[q] != 124 {
                None
            } else {
                let w = ws_end(s, q + 1);
                if w == q + 1 {
                    None
                } else {
                    let e = rate_end(s, w);
                    if e == w || e + 3 > s.len() || s[e] != 102 || s[e + 1] != 112 || s[e + 2]
                        != 115 {
                        None
                    } else {
                        match spec_parse_millifps(s.subrange(w, e)) {
                            None => None,
                            Some(r) => Some(
                                LtcLineMatch {
                                    lock: lock_tag_at(s, i),
                                    hours: two_digit_val(s, p),
                                    minutes: two_digit_val(s, p + 3),
                                    seconds: two_digit_val(s, p + 6),
                                    frames: two_digit_val(s, p + 9),
                                    millifps: r,
                                },
                            ),
                        }
                    }
                }
            }
        }
    }
}

/// The earliest match at or after position `i`.
pub open spec fn spec_find(s: Seq<u8>, i: int) -> Option<LtcLineMatch>
    recommends
        0 <= i <= s.len(),
    decreases s.len() - i,
{
    match spec_match_at(s, i) {
        Some(m) => Some(m),
        None => if i >= s.len() {
            None
        } else {
            spec_find(s, i + 1)
        },
    }
}

/// A sequence of digits denotes a nonnegative number.
proof fn lemma_digits_value_nonneg(t: Seq<u8>)
    requires
        all_digits(t),
    ensures
        digits_value(t) >= 0,
    decreases t.len(),
{
    if t.len() > 0 {
        assert(all_digits(t.drop_last()));
        lemma_digits_value_nonneg(t.drop_last());
    }
}

/// Whether a byte is an ASCII decimal digit.
fn is_digit_byte(b: u8) -> (r: bool)
    ensures
        r == is_digit(b),
{
    b >= 48 && b <= 57
}

/// Whether a byte is whitespace for the pattern's gaps.
fn is_space_byte(b: u8) -> (r: bool)
    ensures
        r == is_space(b),
{
    b == 32 || b == 9 || b == 10 || b == 13 || b == 0x0b || b == 0x0c
}

/// Whether a byte may appear in the frame-rate field.
fn is_rate_byte_exec(b: u8) -> (r: bool)
    ensures
        r == is_rate_byte(b),
{
    (b >= 48 && b <= 57) || b == 46
}

/// Skip whitespace from `from`, returning the first non-whitespace index.
fn scan_ws_end(line: &[u8], from: usize) -> (r: usize)
    requires
        from <= line@.len(),
    ensures
        r as int == ws_end(line@, from as int),
        from <= r <= line@.len(),
    decreases line@.len() - from,
{
    let n = line.len();
    let mut i = from;
    while i < n
        invariant
            from <= i <= n,
            n == line@.len(),
            ws_end(line@, from as int) == ws_end(line@, i as int),
        ensures
            i <= n,
            ws_end(line@, from as int) == ws_end(line@, i as int),
            i == n || !is_space(line@[i as int]),
        decreases n - i,
    {
        if !is_space_byte(line[i]) {
            break;
        }
        i = i + 1;
    }
    i
}

/// Skip rate bytes from `from`, returning the first index past the run.
fn scan_rate_end(line: &[u8], from: usize) -> (r: usize)
    requires
        from <= line@.len(),
    ensures
        r as int == rate_end(line@, from as int),
        from <= r <= line@.len(),
    decreases line@.len() - from,
{
    let n = line.len();
    let mut i = from;
    while i < n
        invariant
            from <= i <= n,
            n == line@.len(),
            rate_end(line@, from as int) == rate_end(line@, i as int),
        ensures
            i <= n,
            rate_end(line@, from as int) == rate_end(line@, i as int),
            i == n || !is_rate_byte(line@[i as int]),
        decreases n - i,
    {
        if !is_rate_byte_exec(line[i]) {
            break;
        }
        i = i + 1;
    }
    i
}

/// Read the two-digit number at `at`, if two digits sit there.
fn read_two_digits(line: &[u8], at: usize) -> (r: Option<u32>)
    requires
        at as int + 2 <= line@.len(),
    ensures
        r is Some <==> two_digits_at(line@, at as int),
        r matches Some(v) ==> v as int == two_digit_val(line@, at as int) && v < 100,
{
    let a = line[at];
    let b = line[at + 1];
    if a >= 48 && a <= 57 && b >= 48 && b <= 57 {
        Some(((a - 48) as u32) * 10 + ((b - 48) as u32))
    } else {
        None
    }
}

/// Parse the frame-rate field `line[from..to]` to thousandths of a frame
/// per second, as `spec_parse_millifps` describes.
fn parse_millifps(line: &[u8], from: usize, to: usize) -> (r: Option<u32>)
    requires
        from <= to,
        to as int <= line@.len(),
    ensures
        r is Some <==> spec_parse_millifps(line@.subrange(from as int, to as int)) is Some,
        r matches Some(v) ==> Some(v as int) == spec_parse_millifps(
            line@.subrange(from as int, to as int),
        ),
{
    let ghost t = line@.subrange(from as int, to as int);
    let n = line.len();
    let len = to - from;

    // Locate the first dot, splitting integer and fraction parts.
    let mut k: usize = 0;
    while k < len
        invariant
            k <= len,
            n == line@.len(),
            from <= to <= n,
            len == to - from,
            len == t.len(),
            t == line@.subrange(from as int, to as int),
            first_dot(t, 0) == first_dot(t, k as int),
        ensures
            k <= len,
            first_dot(t, 0) == first_dot(t, k as int),
            k == len || t[k as int] == 46,
            k as int == first_dot(t, 0),
        decreases len - k,
    {
        if line[from + k] == 46 {
            proof {
                assert(t[k as int] == line@[from + k]);
            }
            break;
        }
        proof {
            assert(t[k as int] == line@[from + k]);
        }
        k = k + 1;
    }

    // Integer part: digits before the dot, accumulated with an overflow
    // flag so that absurdly long fields are rejected rather than wrapped.
    let mut acc: u64 = 0;
    let mut over: bool = false;
    let mut j: usize = 0;
    while j < k
        invariant
            j <= k <= len,
            n == line@.len(),
            from <= to <= n,
            len == to - from,
            len == t.len(),
            t == line@.subrange(from as int, to as int),
            k as int == first_dot(t, 0),
            all_digits(t.take(j as int)),
            !over ==> acc as int == digits_value(t.take(j as int)) && acc <= u32::MAX as u64,
            over ==> digits_value(t.take(j as int)) > u32::MAX,
        decreases k - j,
    {
        let b = line[from + j];
        proof {
            assert(t[j as int] == line@[from + j]);
        }
        if !is_digit_byte(b) {
            proof {
                assert(!is_digit(t.take(k as int)[j as int]));
            }
            return None;
        }
        let d = (b - 48) as u64;
        proof {
            assert(t.take(j as int + 1).drop_last() =~= t.take(j as int));
            assert(t.take(j as int + 1).last() == t[j as int]);
            assert(all_digits(t.take(j as int + 1)));
            if over {
                lemma_digits_value_nonneg(t.take(j as int));
            }
        }
        if !over {
            let nacc = acc * 10 + d;
            if nacc > u32::MAX as u64 {
                over = true;
            }
            acc = nacc;
        }
        j = j + 1;
    }

    proof {
        assert(t.take(k as int) == t.take(j as int));
    }

    // Fraction part: digits after the dot; only the first three carry into
    // the value.
    let ghost fp = if (k as int) < t.len() {
        t.skip(k as int + 1)
    } else {
        Seq::<u8>::empty()
    };
    let mut frac: u64 = 0;
    let mut cnt: usize = 0;
    if k < len {
        let mut idx: usize = k + 1;
        while idx < len
            invariant
                k < len,
                k + 1 <= idx <= len,
                n == line@.len(),
                from <= to <= n,
                len == to - from,
                len == t.len(),
                t == line@.subrange(from as int, to as int),
                k as int == first_dot(t, 0),
                fp == t.skip(k as int + 1),
                cnt == idx - (k + 1),
                all_digits(fp.take(cnt as int)),
                frac as int == frac_millis(fp.take(cnt as int)),
                frac <= 999,
            decreases len - idx,
        {
            let b = line[from + idx];
            proof {
                assert(t[idx as int] == line@[from + idx]);
                assert(fp[cnt as int] == t[idx as int]);
            }
            if !is_digit_byte(b) {
                proof {
                    assert(!is_digit(fp[cnt as int]));
                }
                return None;
            }
            let d = (b - 48) as u64;
            proof {
                assert(fp.take(cnt as int + 1).drop_last() =~= fp.take(cnt as int));
                assert(fp.take(cnt as int + 1).last() == fp[cnt as int]);
                assert(all_digits(fp.take(cnt as int + 1)));
                if cnt == 0 {
                    assert(digits_value(fp.take(0int)) == 0);
                    assert(digits_value(fp.take(1int)) == digit_val(fp[0]));
                } else if cnt == 1 {
                    assert(digits_value(fp.take(2int)) == digits_value(fp.take(1int)) * 10
                        + digit_val(fp[1]));
                } else if cnt == 2 {
                    assert(digits_value(fp.take(3int)) == digits_value(fp.take(2int)) * 10
                        + digit_val(fp[2]));
                    assert(frac_millis(fp.take(2int)) == digits_value(fp.take(2int)) * 10);
                    assert(fp.take(3int).take(3int) =~= fp.take(3int));
                } else {
                    assert(fp.take(cnt as int + 1).take(3int) =~= fp.take(cnt as int).take(3int));
                }
            }
            if cnt == 0 {
                frac = d * 100;
            } else if cnt == 1 {
                frac = frac + d * 10;
            } else if cnt == 2 {
                frac = frac + d;
            }
            cnt = cnt + 1;
            idx = idx + 1;
        }
        proof {
            assert(fp.take(cnt as int) == fp);
        }
    } else {
        proof {
            assert(fp =~= Seq::<u8>::empty());
            assert(fp.take(0int) =~= fp);
        }
    }

    // Both parts scanned clean; combine and range-check.
    proof {
        assert(all_digits(t.take(k as int)));
        assert(all_digits(fp));
        lemma_digits_value_nonneg(t.take(k as int));
        lemma_digits_value_nonneg(fp);
        if fp.len() >= 3 {
            assert(all_digits(fp.take(3int)));
            lemma_digits_value_nonneg(fp.take(3int));
        }
    }
    if k == 0 && cnt == 0 {
        return None;
    }
    if over {
        proof {
            assert(digits_value(t.take(k as int)) * 1000 + frac_millis(fp) > u32::MAX) by {
                assert(digits_value(t.take(k as int)) * 1000 >= digits_value(t.take(k as int)));
                assert(frac_millis(fp) >= 0);
            }
        }
        return None;
    }
    let v = acc * 1000 + frac;
    if v == 0 || v > u32::MAX as u64 {
        None
    } else {
        Some(v as u32)
    }
}

/// Try to match the frame pattern at position `i`, returning the raw
/// fields `(lock, hours, minutes, seconds, frames, millifps)`.
fn try_match_at(line: &[u8], i: usize) -> (r: Option<(bool, u32, u32, u32, u32, u32)>)
    requires
        i <= line@.len(),
    ensures
        r is Some <==> spec_match_at(line@, i as int) is Some,
        r matches Some(f) ==> spec_match_at(line@, i as int) == Some(
            (LtcLineMatch {
                lock: f.0,
                hours: f.1 as int,
                minutes: f.2 as int,
                seconds: f.3 as int,
                frames: f.4 as int,
                millifps: f.5 as int,
            }),
        ),
{
    let n = line.len();
    if n - i < 6 {
        return None;
    }
    let lock = line[i] == 91 && line[i + 1] == 76 && line[i + 2] == 79 && line[i + 3] == 67
        && line[i + 4] == 75 && line[i + 5] == 93;
    let free = line[i] == 91 && line[i + 1] == 70 && line[i + 2] == 82 && line[i + 3] == 69
        && line[i + 4] == 69 && line[i + 5] == 93;
    if !lock && !free {
        return None;
    }
    let p = scan_ws_end(line, i + 6);
    if p == i + 6 || n - p < 11 {
        return None;
    }
    let hours = match read_two_digits(line, p) {
        Some(v) => v,
        None => return None,
    };
    if line[p + 2] != 58 {
        return None;
    }
    let minutes = match read_two_digits(line, p + 3) {
        Some(v) => v,
        None => return None,
    };
    if line[p + 5] != 58 {
        return None;
    }
    let seconds = match read_two_digits(line, p + 6) {
        Some(v) => v,
        None => return None,
    };
    if line[p + 8] != 58 && line[p + 8] != 59 {
        return None;
    }
    let frames = match read_two_digits(line, p + 9) {
        Some(v) => v,
        None => return None,
    };
    let q = scan_ws_end(line, p + 11);
    if q == p + 11 || q == n || line[q] != 124 {
        return None;
    }
    let w = scan_ws_end(line, q + 1);
    if w == q + 1 {
        return None;
    }
    let e = scan_rate_end(line, w);
    if e == w || n - e < 3 {
        return None;
    }
    if line[e] != 102 || line[e + 1] != 112 || line[e + 2] != 115 {
        return None;
    }
    let millifps = match parse_millifps(line, w, e) {
        Some(v) => v,
        None => return None,
    };
    Some((lock, hours, minutes, seconds, frames, millifps))
}

/// Stepping past a non-matching position keeps the earliest match.
proof fn lemma_find_step(s: Seq<u8>, i: int)
    requires
        0 <= i < s.len(),
        spec_match_at(s, i) is None,
    ensures
        spec_find(s, i) == spec_find(s, i + 1),
{
}

/// With no match anywhere at or after `i`, the scan finds nothing.
proof fn lemma_find_none(s: Seq<u8>, i: int)
    requires
        0 <= i <= s.len(),
        forall|j: int| i <= j <= s.len() ==> spec_match_at(s, j) is None,
    ensures
        spec_find(s, i) is None,
    decreases s.len() - i,
{
    if i < s.len() {
        lemma_find_none(s, i + 1);
    }
}

/// Parse one serial line: find the earliest frame pattern and build the
/// frame it carries, stamped with the given arrival instant. `None`
/// exactly when no position of the line matches the pattern with a usable
/// frame rate.
pub fn parse_ltc_line(line: &[u8], timestamp_ms: i64) -> (r: Option<LtcFrame>)
    ensures
        r is Some <==> spec_find(line@, 0) is Some,
        r matches Some(f) ==> {
            let m = spec_find(line@, 0).unwrap();
            &&& f.status == (if m.lock {
                FrameStatus::Lock
            } else {
                FrameStatus::Free
            })
            &&& f.hours as int == m.hours
            &&& f.minutes as int == m.minutes
            &&& f.seconds as int == m.seconds
            &&& f.frames as int == m.frames
            &&& f.frame_rate_millifps as int == m.millifps
            &&& f.timestamp_ms == timestamp_ms
        },
{
    let n = line.len();
    let mut i: usize = 0;
    while i < n
        invariant
            i <= n,
            n == line@.len(),
            forall|j: int| 0 <= j < i as int ==> spec_match_at(line@, j) is None,
            forall|j: int|
                0 <= j < i as int ==> #[trigger] spec_find(line@, j) == spec_find(
                    line@,
                    i as int,
                ),
        decreases n - i,
    {
        match try_match_at(line, i) {
            Some(f) => {
                proof {
                    if i > 0 {
                        assert(spec_find(line@, 0) == spec_find(line@, i as int));
                    }
                }
                let status = if f.0 {
                    FrameStatus::Lock
                } else {
                    FrameStatus::Free
                };
                return Some(
                    LtcFrame {
                        status,
                        hours: f.1,
                        minutes: f.2,
                        seconds: f.3,
                        frames: f.4,
                        frame_rate_millifps: f.5,
                        timestamp_ms,
                    },
                );
            },
            None => {
                proof {
                    lemma_find_step(line@, i as int);
                    assert forall|j: int| 0 <= j < i as int + 1 implies #[trigger] spec_find(
                        line@,
                        j,
                    ) == spec_find(line@, i as int + 1) by {
                        if j < i as int {
                            assert(spec_find(line@, j) == spec_find(line@, i as int));
                        }
                    }
                }
                i = i + 1;
            },
        }
    }
    // No position matched; the final position cannot hold the six-byte tag.
    match try_match_at(line, i) {
        Some(_) => {
            proof {
                assert(false);
            }
            None
        },
        None => {
            proof {
                lemma_find_none(line@, 0);
            }
            None
        },
    }
}

} // verus!
