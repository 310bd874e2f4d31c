//! Time, range, string and validation helpers.

use vstd::prelude::*;
use vstd::string::*;
use vstd::utf8::{decode_utf8, encode_utf8_decode_utf8, is_char_boundary};
use vstd::std_specs::cmp::{PartialOrdIs, PartialOrdSpec};
use std::time::{Duration, SystemTime, UNIX_EPOCH};
use crate::text::{duration_string, duration_text, size_string, size_text, push_grouped, grouped};

verus! {

/// The whole seconds of a duration.
pub uninterp spec fn duration_secs(d: Duration) -> nat;

/// Relies on `Duration::as_secs`: the number of whole seconds in the duration.
#[verifier::external_body]
fn whole_seconds(d: &Duration) -> (r: u64)
    ensures
        r == duration_secs(*d),
{
    d.as_secs()
}

#[verifier::external_type_specification]
#[verifier::external_body]
pub struct ExSystemTime(SystemTime);

/// Relies on `SystemTime::now`: the current wall-clock time. Nothing is
/// promised of its value.
#[verifier::external_body]
fn system_time_now() -> (r: SystemTime) {
    SystemTime::now()
}

/// Relies on `SystemTime::duration_since`: the time elapsed since the Unix
/// epoch, none if `t` is earlier. Nothing is promised of its value.
#[verifier::external_body]
fn since_unix_epoch(t: &SystemTime) -> (r: Option<Duration>) {
    t.duration_since(UNIX_EPOCH).ok()
}

/// Time helpers.
pub struct TimeUtils;

impl TimeUtils {
    /// The current Unix time in whole seconds; zero if the clock reads
    /// before the epoch.
    pub fn current_timestamp() -> u64 {
        match since_unix_epoch(&system_time_now()) {
            Some(d) => whole_seconds(&d),
            None => 0,
        }
    }

    /// A duration as text, by its largest non-zero part (whole seconds).
    pub fn format_duration(duration: Duration) -> (r: String)
        ensures
            r@ == duration_text(duration_secs(duration)),
    {
        duration_string(whole_seconds(&duration))
    }
}

/// Numeric helpers.
pub struct MathUtils;

impl MathUtils {
    /// `value` limited to `[min, max]`: `min` below it, `max` above it.
    pub fn clamp<T: PartialOrd>(value: T, min: T, max: T) -> (r: T)
        ensures
            T::obeys_partial_cmp_spec() ==> r == if value.is_lt(&min) {
                min
            } else if value.is_gt(&max) {
                max
            } else {
                value
            },
    {
        if value < min {
            min
        } else if value > max {
            max
        } else {
            value
        }
    }
}

/// String helpers.
pub struct StringUtils;

/// The byte length kept before the ellipsis when truncating to `max_len` bytes.
pub open spec fn kept_bytes(max_len: usize) -> int {
    if max_len >= 3 {
        max_len - 3
    } else {
        0
    }
}

impl StringUtils {
    /// `s` itself when it is at most `max_len` bytes long; otherwise its
    /// first `max_len - 3` bytes (none if `max_len < 3`) followed by `...`.
    pub fn truncate(s: &str, max_len: usize) -> (r: String)
        requires
            s.len() <= max_len || is_char_boundary(s.spec_bytes(), kept_bytes(max_len)),
        ensures
            s.len() <= max_len ==> r@ == s@,
            s.len() > max_len ==> r@ == decode_utf8(
                s.spec_bytes().subrange(0, kept_bytes(max_len)),
            ) + "..."@,
    {
        if s.len() <= max_len {
            return String::from_str(s);
        }
        let keep = if max_len >= 3 {
            max_len - 3
        } else {
            0
        };
        let (head, _) = s.split_at(keep);
        proof {
            encode_utf8_decode_utf8(head@);
        }
        let out = String::from_str(head);
        out.concat("...")
    }

    /// A byte count in B, KB, MB, GB, TB or PB: whole bytes as they are,
    /// larger units with one decimal place.
    pub fn format_file_size(bytes: u64) -> (r: String)
        ensures
            r@ == size_text(bytes as nat, 5),
    {
        size_string(bytes, 5)
    }

    /// The decimal digits of `num` in comma-separated groups of three.
    pub fn format_number(num: u64) -> (r: String)
        ensures
            r@ == grouped(num as nat),
    {
        let mut out = String::new();
        push_grouped(&mut out, num);
        assert(out@ =~= grouped(num as nat));
        out
    }
}

/// Validation helpers.
pub struct ValidationUtils;

/// An ASCII decimal digit.
pub open spec fn is_digit(c: char) -> bool {
    '0' <= c && c <= '9'
}

/// The value of a run of decimal digits.
pub open spec fn digits_value(s: Seq<char>) -> nat
    decreases s.len(),
{
    if s.len() == 0 {
        0
    } else {
        digits_value(s.drop_last()) * 10 + (s.last() as nat - '0' as nat) as nat
    }
}

/// `s` without a leading `+`.
pub open spec fn unsigned_part(s: Seq<char>) -> Seq<char> {
    if s.len() > 0 && s[0] == '+' {
        s.drop_first()
    } else {
        s
    }
}

/// `s` reads as a `u8`: an optional `+`, then one or more digits whose
/// value is at most 255.
pub open spec fn reads_as_u8(s: Seq<char>) -> bool {
    let d = unsigned_part(s);
    &&& d.len() > 0
    &&& forall|i: int| 0 <= i < d.len() ==> is_digit(#[trigger] d[i])
    &&& digits_value(d) <= 255
}

/// The fields of `s` between `.` separators (one more than the separators).
pub open spec fn dot_fields(s: Seq<char>) -> Seq<Seq<char>>
    decreases s.len(),
{
    if s.len() == 0 {
        seq![Seq::empty()]
    } else {
        let f = dot_fields(s.drop_last());
        if s.last() == '.' {
            f.push(Seq::empty())
        } else {
            f.update(f.len() - 1, f.last().push(s.last()))
        }
    }
}

/// How many of the fields read as a `u8`.
pub open spec fn count_u8_fields(fs: Seq<Seq<char>>) -> nat
    decreases fs.len(),
{
    if fs.len() == 0 {
        0
    } else {
        count_u8_fields(fs.drop_last()) + if reads_as_u8(fs.last()) {
            1nat
        } else {
            0nat
        }
    }
}

proof fn lemma_dot_fields_nonempty(s: Seq<char>)
    ensures
        dot_fields(s).len() >= 1,
    decreases s.len(),
{
    if s.len() > 0 {
        lemma_dot_fields_nonempty(s.drop_last());
    }
}

/// Whether `field` reads as a `u8`.
fn field_is_u8(field: &Vec<char>) -> (r: bool)
    ensures
        r == reads_as_u8(field@),
{
    let n = field.len();
    let start: usize = if n > 0 && field[0] == '+' {
        1
    } else {
        0
    };
    let ghost d = unsigned_part(field@);
    assert(d =~= field@.subrange(start as int, n as int));
    if start == n {
        return false;
    }
    let mut value: u32 = 0;
    let mut i: usize = start;
    while i < n
        invariant
            start <= i <= n,
            n == field@.len(),
            d == field@.subrange(start as int, n as int),
            d == unsigned_part(field@),
            forall|j: int| 0 <= j < i - start ==> is_digit(#[trigger] d[j]),
            value == if digits_value(d.take(i - start)) > 256 {
                256
            } else {
                digits_value(d.take(i - start))
            },
        decreases n - i,
    {
        let c = field[i];
        if !('0' <= c && c <= '9') {
            assert(d[i - start] == c);
            assert(!is_digit(d[i - start]));
            return false;
        }
        let digit = (c as u32) - ('0' as u32);
        assert(d.take(i - start + 1).drop_last() =~= d.take(i - start));
        let next = value * 10 + digit;
        value = if next > 256 {
            256
        } else {
            next
        };
        i = i + 1;
    }
    assert(d.take(n - start) =~= d);
    value <= 255
}

impl ValidationUtils {
    /// A port number is valid when it is not zero.
    pub fn is_valid_port(port: u16) -> (r: bool)
        ensures
            r == (port > 0),
    {
        port > 0 && port <= 65535
    }

    /// Exactly four of the `.`-separated fields of `ip` read as a `u8`.
    pub fn is_valid_ip(ip: &str) -> (r: bool)
        ensures
            r == (count_u8_fields(dot_fields(ip@)) == 4),
    {
        let n = ip.unicode_len();
        let mut count: usize = 0;
        let mut field: Vec<char> = Vec::new();
        let ghost mut done: Seq<Seq<char>> = Seq::empty();
        let mut i: usize = 0;
        while i < n
            invariant
                i <= n == ip@.len(),
                dot_fields(ip@.take(i as int)) == done.push(field@),
                count == count_u8_fields(done),
                count <= i,
            decreases n - i,
        {
            let c = ip.get_char(i);
            assert(ip@.take(i + 1).drop_last() =~= ip@.take(i as int));
            if c == '.' {
                let ok = field_is_u8(&field);
                proof {
                    assert(done.push(field@).drop_last() =~= done);
                    done = done.push(field@);
                }
                if ok {
                    count = count + 1;
                }
                field = Vec::new();
                assert(dot_fields(ip@.take(i + 1)) =~= done.push(field@));
            } else {
                field.push(c);
                assert(dot_fields(ip@.take(i + 1)) =~= done.push(field@));
            }
            i = i + 1;
        }
        let ok = field_is_u8(&field);
        assert(ip@.take(n as int) =~= ip@);
        assert(done.push(field@).drop_last() =~= done);
        if ok {
            count == 3
        } else {
            count == 4
        }
    }

    /// A path is valid when it is not empty and holds no NUL character.
    pub fn is_valid_path(path: &str) -> (r: bool)
        ensures
            r == (path@.len() > 0 && !path@.contains('\0')),
    {
        let n = path.unicode_len();
        if n == 0 {
            return false;
        }
        let mut i: usize = 0;
        while i < n
            invariant
                i <= n == path@.len(),
                forall|j: int| 0 <= j < i ==> path@[j] != '\0',
            decreases n - i,
        {
            if path.get_char(i) == '\0' {
                return false;
            }
            i = i + 1;
        }
        true
    }

    /// `min <= value <= max`.
    pub fn is_in_range<T: PartialOrd>(value: T, min: T, max: T) -> (r: bool)
        ensures
            T::obeys_partial_cmp_spec() ==> r == (value.is_ge(&min) && value.is_le(&max)),
    {
        value >= min && value <= max
    }
}

} // verus!
